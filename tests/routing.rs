use std::cell::Cell;

use elemeld::{
    Action, Addr, ButtonEvent, Cluster, Dimensions, Edges, Elemeld, Focus, HostEvent,
    HostInterface, IpAddress, KeyEvent, MotionEvent, NetEvent, NotInCluster, Outgoing,
    PositionEvent, Screen, Selection, State,
};

const PORT: u16 = 24242;

fn ip(last: u8) -> IpAddress {
    IpAddress::V4(0x0a00_0000 | last as u32)
}

fn addr(last: u8) -> Addr {
    Addr { ip: ip(last), port: PORT }
}

fn screen(name: &str, width: i32, height: i32, last: u8) -> Screen {
    Screen::new(name.to_string(), width, height, &vec![ip(last)], PORT)
}

fn focus(index: u8, x: i32, y: i32) -> Focus {
    Focus { index, pos: Dimensions { x, y } }
}

fn pair(x: i32, y: i32) -> Cluster {
    let mut a = screen("a", 800, 600, 1);
    let mut b = screen("b", 1024, 768, 2);
    a.set_edges(Edges { top: None, right: Some(1), bottom: None, left: None });
    b.set_edges(Edges { top: None, right: None, bottom: None, left: Some(0) });
    Cluster::with_screens(vec![a, b], x, y).unwrap()
}

/// A router on host 10.0.0.1 (screen 0 of `pair`), connected through a
/// peer's announcement.
fn connected(x: i32, y: i32) -> Elemeld {
    let mut r = Elemeld::new(pair(x, y), vec![ip(1)]);
    let peer = Cluster::new(screen("b", 1024, 768, 2), 0, 0);
    let actions = r.net_event(NetEvent::Connect(peer), addr(2)).unwrap();
    assert_eq!(actions, vec![Action::Publish, Action::Unicast(Outgoing::Cluster, addr(2))]);
    assert_eq!(r.state(), State::Connected);
    r
}

#[derive(Default)]
struct CountingHost {
    grabs: Cell<u32>,
    ungrabs: Cell<u32>,
    sent: Cell<u32>,
}

impl HostInterface for CountingHost {
    fn screen_size(&self) -> (i32, i32) {
        (800, 600)
    }

    fn cursor_pos(&self) -> (i32, i32) {
        (0, 0)
    }

    fn grab_cursor(&self) {
        self.grabs.set(self.grabs.get() + 1);
    }

    fn ungrab_cursor(&self) {
        self.ungrabs.set(self.ungrabs.get() + 1);
    }

    fn grab_keyboard(&self) {
        self.grabs.set(self.grabs.get() + 1);
    }

    fn ungrab_keyboard(&self) {
        self.ungrabs.set(self.ungrabs.get() + 1);
    }

    fn recv_event(&self) -> Option<HostEvent> {
        None
    }

    fn send_event(&self, _event: HostEvent) {
        self.sent.set(self.sent.get() + 1);
    }
}

fn perform(host: &CountingHost, actions: &[Action]) {
    for a in actions {
        match a {
            Action::Grab => {
                host.grab_cursor();
                host.grab_keyboard();
            }
            Action::Ungrab => {
                host.ungrab_cursor();
                host.ungrab_keyboard();
            }
            Action::Inject(e) => host.send_event(*e),
            _ => {}
        }
    }
}

#[test]
fn grab_exactly_once_per_flip() {
    let mut r = connected(100, 100);
    let host = CountingHost::default();
    for f in [focus(0, 10, 10), focus(0, 20, 20), focus(1, 30, 30), focus(1, 40, 40), focus(0, 50, 50)] {
        let actions = r.net_event(NetEvent::Focus(f), addr(2)).unwrap();
        perform(&host, &actions);
    }
    assert_eq!(host.grabs.get(), 2);
    assert_eq!(host.ungrabs.get(), 2);
    assert_eq!(r.cluster().focus(), focus(0, 50, 50));
}

#[test]
fn host_events_alone_never_connect() {
    let mut r = Elemeld::new(pair(100, 100), vec![ip(1)]);
    let events = [
        HostEvent::Motion(MotionEvent { dx: 900, dy: 3 }),
        HostEvent::Button(ButtonEvent { button: 1, state: true }),
        HostEvent::Key(KeyEvent { key: 38, state: true }),
        HostEvent::Position(PositionEvent { x: 5, y: 5 }),
        HostEvent::Selection(Selection::Clipboard),
    ];
    for e in events {
        assert_eq!(r.host_event(e), vec![]);
        assert_eq!(r.state(), State::Connecting);
    }
    assert_eq!(r.net_event(NetEvent::Focus(focus(1, 3, 3)), addr(2)).unwrap(), vec![Action::Grab]);
    assert_eq!(r.state(), State::Connecting);
    assert_eq!(r.on_writable(), vec![Action::Broadcast(Outgoing::Connect)]);
    assert_eq!(r.state(), State::Waiting);
    assert_eq!(r.on_writable(), vec![]);
    assert_eq!(r.state(), State::Waiting);
    let peer = Cluster::new(screen("c", 640, 480, 3), 0, 0);
    r.net_event(NetEvent::Connect(peer), addr(3)).unwrap();
    assert_eq!(r.state(), State::Connected);
    assert_eq!(r.cluster().screens().len(), 3);
}

#[test]
fn motion_across_edge_is_broadcast() {
    let mut r = connected(700, 300);
    let actions = r.host_event(HostEvent::Motion(MotionEvent { dx: 104, dy: 0 }));
    let f = focus(1, 6, 384);
    assert_eq!(actions, vec![Action::Grab, Action::Broadcast(Outgoing::Focus(f))]);
    assert_eq!(r.cluster().focus(), f);
}

#[test]
fn motion_on_remote_screen_is_unicast() {
    let mut r = connected(700, 300);
    r.host_event(HostEvent::Motion(MotionEvent { dx: 104, dy: 0 }));
    let actions = r.host_event(HostEvent::Motion(MotionEvent { dx: 10, dy: -4 }));
    let f = focus(1, 16, 380);
    assert_eq!(actions, vec![Action::Unicast(Outgoing::Focus(f), addr(2))]);
}

#[test]
fn motion_on_local_screen_stays_local() {
    let mut r = connected(100, 100);
    let actions = r.host_event(HostEvent::Motion(MotionEvent { dx: 5, dy: 7 }));
    assert_eq!(actions, vec![Action::Inject(HostEvent::Position(PositionEvent { x: 105, y: 107 }))]);
    assert_eq!(r.host_event(HostEvent::Motion(MotionEvent { dx: 0, dy: 0 })), vec![]);
}

#[test]
fn buttons_follow_focus() {
    let mut r = connected(100, 100);
    let b = ButtonEvent { button: 1, state: true };
    let k = KeyEvent { key: 38, state: false };
    assert_eq!(r.host_event(HostEvent::Button(b)), vec![]);
    assert_eq!(r.net_event(NetEvent::Button(b), addr(2)).unwrap(), vec![Action::Inject(HostEvent::Button(b))]);
    assert_eq!(r.net_event(NetEvent::Key(k), addr(2)).unwrap(), vec![Action::Inject(HostEvent::Key(k))]);
    r.net_event(NetEvent::Focus(focus(1, 3, 3)), addr(2)).unwrap();
    assert_eq!(r.host_event(HostEvent::Button(b)), vec![Action::Unicast(Outgoing::Button(b), addr(2))]);
    assert_eq!(r.host_event(HostEvent::Key(k)), vec![Action::Unicast(Outgoing::Key(k), addr(2))]);
    assert_eq!(r.net_event(NetEvent::Button(b), addr(2)).unwrap(), vec![]);
}

#[test]
fn unknown_focus_screen_is_dropped() {
    let mut r = connected(100, 100);
    assert_eq!(r.net_event(NetEvent::Focus(focus(9, 3, 3)), addr(2)).unwrap(), vec![]);
    assert_eq!(r.cluster().focus(), focus(0, 100, 100));
}

#[test]
fn cluster_while_waiting_is_adopted() {
    let mut r = Elemeld::new(Cluster::new(screen("b", 1024, 768, 2), 10, 10), vec![ip(2)]);
    r.on_writable();
    let actions = r.net_event(NetEvent::Cluster(pair(100, 100)), addr(1)).unwrap();
    assert_eq!(actions, vec![Action::Grab, Action::Publish]);
    assert_eq!(r.state(), State::Connected);
    assert_eq!(r.cluster().local_screen(), 1);
    assert_eq!(r.cluster().screens().len(), 2);
}

#[test]
fn cluster_without_this_host_fails() {
    let mut r = Elemeld::new(Cluster::new(screen("z", 1024, 768, 9), 10, 10), vec![ip(9)]);
    r.on_writable();
    let result = r.net_event(NetEvent::Cluster(pair(100, 100)), addr(1));
    assert_eq!(result.unwrap_err(), NotInCluster);
    assert_eq!(r.state(), State::Waiting);
    assert_eq!(r.cluster().screens().len(), 1);
}

#[test]
fn cluster_while_connected_is_merged_and_rebroadcast() {
    let mut r = connected(100, 100);
    let other = Cluster::new(screen("c", 640, 480, 3), 0, 0);
    let actions = r.net_event(NetEvent::Cluster(other), addr(3)).unwrap();
    assert_eq!(actions, vec![Action::Publish, Action::Broadcast(Outgoing::Cluster)]);
    assert_eq!(r.cluster().screens().len(), 3);
    assert_eq!(r.cluster().local_screen(), 0);
}

#[test]
fn request_and_layout_messages() {
    let mut r = connected(100, 100);
    assert_eq!(
        r.net_event(NetEvent::RequestCluster, addr(4)).unwrap(),
        vec![Action::Unicast(Outgoing::Cluster, addr(4))]
    );
    assert_eq!(r.config_event(NetEvent::RequestCluster), vec![Action::Publish]);
    let layout = vec![screen("a", 50, 40, 1)];
    let actions = r.config_event(NetEvent::Screens(layout));
    assert_eq!(
        actions,
        vec![
            Action::Inject(HostEvent::Position(PositionEvent { x: 49, y: 39 })),
            Action::Broadcast(Outgoing::Cluster),
        ]
    );
    assert_eq!(r.config_event(NetEvent::Screens(vec![])), vec![]);
    assert_eq!(r.net_event(NetEvent::Screens(vec![]), addr(4)).unwrap(), vec![]);
    assert_eq!(r.cluster().screens().len(), 1);
}

#[test]
fn config_targets() {
    let config = elemeld::Config {
        server_addr: IpAddress::V4(0),
        multicast_addr: IpAddress::V4(0xe000_022a),
        port: PORT,
    };
    assert_eq!(config.multicast_target(), Addr { ip: IpAddress::V4(0xe000_022a), port: PORT });
    assert_eq!(config.bind_target(), Addr { ip: IpAddress::V4(0), port: PORT });
}
