use elemeld::{Addr, Cluster, Dimensions, Edges, Focus, IpAddress, NotInCluster, Screen};

const PORT: u16 = 24242;

fn ip(last: u8) -> IpAddress {
    IpAddress::V4(0x0a00_0000 | last as u32)
}

fn screen(name: &str, width: i32, height: i32, last: u8) -> Screen {
    Screen::new(name.to_string(), width, height, &vec![ip(last)], PORT)
}

fn edges(left: Option<u8>, right: Option<u8>) -> Edges {
    Edges { top: None, right, bottom: None, left }
}

fn focus(index: u8, x: i32, y: i32) -> Focus {
    Focus { index, pos: Dimensions { x, y } }
}

/// Two screens side by side: 800x600 on the left, 1024x768 on the right.
fn pair() -> Cluster {
    let mut a = screen("a", 800, 600, 1);
    let mut b = screen("b", 1024, 768, 2);
    a.set_edges(edges(None, Some(1)));
    b.set_edges(edges(Some(0), None));
    Cluster::with_screens(vec![a, b], 100, 100).unwrap()
}

#[test]
fn edge_crossing_rescales() {
    let c = pair();
    let f = c.normalize_focus(focus(0, 799 + 5, 300));
    assert_eq!(f, focus(1, 6, 384));
}

#[test]
fn edge_crossing_left_keeps_margin() {
    let c = pair();
    // x = -3 on the right screen: -3 + 800 - 2 on the left one, y scaled by 600/768.
    let f = c.normalize_focus(focus(1, -3, 384));
    assert_eq!(f, focus(0, 795, 300));
}

#[test]
fn clamp_at_open_boundary() {
    let c = Cluster::new(screen("solo", 1920, 1080, 1), 10, 10);
    assert_eq!(c.normalize_focus(focus(0, -5, 500)), focus(0, 0, 500));
    assert_eq!(c.normalize_focus(focus(0, 1925, 500)), focus(0, 1919, 500));
    assert_eq!(c.normalize_focus(focus(0, 500, -7)), focus(0, 500, 0));
    assert_eq!(c.normalize_focus(focus(0, 500, 2000)), focus(0, 500, 1079));
}

#[test]
fn normalize_twice_is_normalize_once() {
    let c = pair();
    for f in [
        focus(0, 804, 300),
        focus(0, -50, -50),
        focus(1, 5000, 5000),
        focus(1, -2000, 10),
        focus(0, 400, 300),
    ] {
        let once = c.normalize_focus(f);
        assert_eq!(c.normalize_focus(once), once);
    }
}

#[test]
fn new_cluster_brings_cursor_onto_screen() {
    let c = Cluster::new(screen("solo", 640, 480, 1), 700, -1);
    assert_eq!(c.focus(), focus(0, 639, 0));
    assert_eq!(c.local_screen(), 0);
    assert!(c.locally_focused());
    assert!(c.is_well_formed());
}

#[test]
fn cycle_is_clamped() {
    // Each screen is both the left and the right neighbour of the other.
    let mut a = screen("a", 100, 100, 1);
    let mut b = screen("b", 100, 100, 2);
    a.set_edges(edges(Some(1), Some(1)));
    b.set_edges(edges(Some(0), Some(0)));
    let c = Cluster::with_screens(vec![a, b], 50, 50).unwrap();
    let f = c.normalize_focus(focus(0, 1_000_000, 50));
    assert!(f.pos.x >= 0 && f.pos.x < 100);
}

#[test]
fn invalid_layouts_are_refused() {
    let mut a = screen("a", 800, 600, 1);
    a.set_edges(edges(None, Some(3)));
    assert!(Cluster::with_screens(vec![a], 0, 0).is_none());
    assert!(Cluster::with_screens(vec![], 0, 0).is_none());
    assert!(Cluster::with_screens(vec![screen("z", 0, 600, 1)], 0, 0).is_none());
    let bad_focus = Cluster::from_parts(0, vec![screen("a", 800, 600, 1)], focus(0, 800, 0));
    assert!(bad_focus.is_none());
    let bad_local = Cluster::from_parts(1, vec![screen("a", 800, 600, 1)], focus(0, 0, 0));
    assert!(bad_local.is_none());
    let good = Cluster::from_parts(0, vec![screen("a", 800, 600, 1)], focus(0, 799, 599));
    assert!(good.is_some());
}

#[test]
fn merge_of_known_addresses_keeps_size() {
    let mut c = pair();
    let other = Cluster::new(screen("b-again", 1280, 1024, 2), 0, 0);
    c.merge(other);
    assert_eq!(c.screens().len(), 2);
    assert_eq!(c.screens()[1].size(), Dimensions { x: 1024, y: 768 });
}

#[test]
fn merge_of_new_address_appends_rightmost() {
    let mut c = pair();
    let other = Cluster::new(screen("c", 1280, 1024, 3), 0, 0);
    c.merge(other);
    let screens = c.screens();
    assert_eq!(screens.len(), 3);
    assert_eq!(screens[1].edges().right, Some(2));
    assert_eq!(screens[1].edges().left, Some(0));
    assert_eq!(screens[2].edges(), edges(Some(1), None));
    assert_eq!(screens[2].name(), "c");
    assert_eq!(screens[2].default_route(), Some(Addr { ip: ip(3), port: PORT }));
    assert_eq!(screens[0].edges(), edges(None, Some(1)));
}

#[test]
fn merge_drops_foreign_edges() {
    let mut c = Cluster::new(screen("a", 800, 600, 1), 0, 0);
    let mut x = screen("x", 640, 480, 7);
    let mut y = screen("y", 640, 480, 8);
    x.set_edges(Edges { top: Some(1), right: Some(1), bottom: None, left: None });
    y.set_edges(edges(Some(0), None));
    let other = Cluster::with_screens(vec![x, y], 0, 0).unwrap();
    c.merge(other);
    let screens = c.screens();
    assert_eq!(screens.len(), 3);
    assert_eq!(screens[0].edges(), edges(None, Some(1)));
    assert_eq!(screens[1].edges(), edges(Some(0), Some(2)));
    assert_eq!(screens[2].edges(), edges(Some(1), None));
}

#[test]
fn merge_skips_screen_known_from_same_merge() {
    let mut c = Cluster::new(screen("a", 800, 600, 1), 0, 0);
    let other = Cluster::with_screens(vec![screen("x", 640, 480, 7), screen("x2", 640, 480, 7)], 0, 0)
        .unwrap();
    c.merge(other);
    assert_eq!(c.screens().len(), 2);
}

#[test]
fn replace_locates_host() {
    let mut c = Cluster::new(screen("a", 800, 600, 1), 10, 10);
    let effects = c.replace(pair(), &vec![IpAddress::V4(0x7f00_0001), ip(2)]).unwrap();
    assert_eq!(c.local_screen(), 1);
    assert_eq!(c.screens().len(), 2);
    // Focus was local and now sits on screen 0, which is no longer this host.
    assert_eq!(effects, vec![elemeld::Action::Grab]);
}

#[test]
fn replace_without_host_address_fails() {
    let mut c = Cluster::new(screen("a", 800, 600, 1), 10, 10);
    let r = c.replace(pair(), &vec![ip(9)]);
    assert_eq!(r, Err(NotInCluster));
    assert_eq!(c.screens().len(), 1);
    assert_eq!(c.screens()[0].name(), "a");
}

#[test]
fn screen_skips_loopback_addresses() {
    let ips = vec![
        IpAddress::V4(0x7f00_0001),
        ip(5),
        IpAddress::V6(1),
        IpAddress::V6(0x2001_0db8 << 96),
    ];
    let s = Screen::new("host".to_string(), 1920, 1080, &ips, 8080);
    assert_eq!(
        s.addrs(),
        &vec![
            Addr { ip: ip(5), port: 8080 },
            Addr { ip: IpAddress::V6(0x2001_0db8 << 96), port: 8080 },
        ]
    );
    assert_eq!(s.default_route(), Some(Addr { ip: ip(5), port: 8080 }));
    assert_eq!(s.size(), Dimensions { x: 1920, y: 1080 });
    let lonely = Screen::new("lo".to_string(), 10, 10, &vec![IpAddress::V4(0x7f00_0001)], 8080);
    assert_eq!(lonely.default_route(), None);
    assert!(IpAddress::V4(0x7f12_3456).is_loopback());
    assert!(!IpAddress::V4(0x0a00_0001).is_loopback());
}

#[test]
fn refocus_grabs_only_on_flips() {
    let mut c = pair();
    assert_eq!(c.refocus(focus(0, 10, 10)).len(), 1);
    assert_eq!(c.refocus(focus(1, 10, 10)), vec![elemeld::Action::Grab]);
    assert_eq!(c.refocus(focus(1, 20, 10)), vec![]);
    let back = c.refocus(focus(0, 30, 40));
    assert_eq!(back[0], elemeld::Action::Ungrab);
    assert_eq!(
        back[1],
        elemeld::Action::Inject(elemeld::HostEvent::Position(elemeld::PositionEvent { x: 30, y: 40 }))
    );
    assert_eq!(back.len(), 2);
}

#[test]
fn set_screens_checks_layout() {
    let mut c = pair();
    assert!(c.set_screens(vec![]).is_none());
    assert_eq!(c.screens().len(), 2);
    let r = c.set_screens(vec![screen("a", 50, 50, 1)]);
    assert!(r.is_some());
    assert_eq!(c.focus(), focus(0, 49, 49));
}

#[test]
fn process_host_event_crosses_and_broadcasts() {
    let mut c = pair();
    let actions = c.process_host_event(elemeld::HostEvent::Motion(elemeld::MotionEvent { dx: 800, dy: 0 }));
    let f = focus(1, 102, 128);
    assert_eq!(
        actions,
        vec![elemeld::Action::Grab, elemeld::Action::Broadcast(elemeld::Outgoing::Focus(f))]
    );
    assert_eq!(c.focus(), f);
    let key = elemeld::KeyEvent { key: 65, state: true };
    assert_eq!(
        c.process_host_event(elemeld::HostEvent::Key(key)),
        vec![elemeld::Action::Unicast(elemeld::Outgoing::Key(key), Addr { ip: ip(2), port: PORT })]
    );
    assert_eq!(c.process_host_event(elemeld::HostEvent::Selection(elemeld::Selection::Primary)), vec![]);
}

#[test]
fn process_net_event_injects_only_when_local() {
    let mut c = pair();
    let b = elemeld::ButtonEvent { button: 3, state: false };
    assert_eq!(c.process_net_event(elemeld::NetEvent::Button(b)), Some(elemeld::HostEvent::Button(b)));
    assert_eq!(c.process_net_event(elemeld::NetEvent::RequestCluster), None);
    c.refocus(focus(1, 5, 5));
    assert_eq!(c.process_net_event(elemeld::NetEvent::Button(b)), None);
}

#[test]
fn duplicate_is_equal() {
    let c = pair();
    let d = c.duplicate();
    assert_eq!(d.local_screen(), c.local_screen());
    assert_eq!(d.focus(), c.focus());
    assert_eq!(d.screens().len(), 2);
    assert_eq!(d.screens()[1].name(), "b");
    assert_eq!(d.screens()[1].addrs(), c.screens()[1].addrs());
    assert_eq!(d.screens()[0].edges(), c.screens()[0].edges());
}
