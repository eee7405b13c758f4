//! The topology model: screens, the cluster that links them, and the focus;
//! with the routing of local input that depends on where focus lies.

use vstd::prelude::*;

pub use crate::io::Action;
use crate::io::{HostEvent, NetEvent, Outgoing, PositionEvent};

mod normalize;
mod sync;

pub use normalize::{
    chain_ends, edge, lemma_normalize_idempotent, rescale, saturate, walk_x, walk_y, Direction,
    MARGIN,
};
pub(crate) use normalize::shift;
pub use sync::{
    append, known, lemma_merge_known_unchanged, lemma_merge_unknown_appends, locate, located,
    located_at, merged, rightmost, rightmost_from,
};

verus! {

/// Position of a screen in its cluster's screen sequence.
pub type Index = u8;

/// Width and height of a screen, or a cursor position on one.
#[derive(Clone, Copy, Debug, PartialEq, Eq, Structural)]
pub struct Dimensions {
    pub x: i32,
    pub y: i32,
}

/// The neighbours of a screen, by index into the same cluster.
#[derive(Clone, Copy, Debug, PartialEq, Eq, Structural)]
pub struct Edges {
    pub top: Option<Index>,
    pub right: Option<Index>,
    pub bottom: Option<Index>,
    pub left: Option<Index>,
}

/// A network-layer address.
#[derive(Clone, Copy, Debug, PartialEq, Eq, Structural)]
pub enum IpAddress {
    V4(u32),
    V6(u128),
}

/// A peer endpoint: address and port.
#[derive(Clone, Copy, Debug, PartialEq, Eq, Structural)]
pub struct Addr {
    pub ip: IpAddress,
    pub port: u16,
}

/// Which screen owns input, and where the cursor sits on it.
#[derive(Clone, Copy, Debug, PartialEq, Eq, Structural)]
pub struct Focus {
    pub index: Index,
    pub pos: Dimensions,
}

pub open spec fn is_loopback(ip: IpAddress) -> bool {
    match ip {
        IpAddress::V4(a) => a / 0x100_0000 == 127,
        IpAddress::V6(a) => a == 1,
    }
}

/// A screen as the contracts see it.
pub struct ScreenView {
    pub name: Seq<char>,
    pub size: Dimensions,
    pub edges: Edges,
    pub addrs: Seq<Addr>,
}

/// One participating machine's display.
#[derive(Debug)]
pub struct Screen {
    name: String,
    size: Dimensions,
    edges: Edges,
    addrs: Vec<Addr>,
}

impl View for Screen {
    type V = ScreenView;

    closed spec fn view(&self) -> ScreenView {
        ScreenView { name: self.name@, size: self.size, edges: self.edges, addrs: self.addrs@ }
    }
}

/// A cluster as the contracts see it.
pub struct ClusterView {
    pub local_screen: Index,
    pub screens: Seq<ScreenView>,
    pub focus: Focus,
}

/// All known screens, which of them is this machine, and the focus.
#[derive(Debug)]
pub struct Cluster {
    local_screen: Index,
    screens: Vec<Screen>,
    focus: Focus,
}

impl View for Cluster {
    type V = ClusterView;

    closed spec fn view(&self) -> ClusterView {
        ClusterView {
            local_screen: self.local_screen,
            screens: self.screens@.map_values(|s: Screen| s@),
            focus: self.focus,
        }
    }
}

pub open spec fn edge_ok(e: Option<Index>, n: nat) -> bool {
    match e {
        Some(j) => j < n,
        None => true,
    }
}

impl ScreenView {
    /// Both dimensions positive.
    pub open spec fn sized(self) -> bool {
        self.size.x >= 1 && self.size.y >= 1
    }

    /// Sized, and every edge names one of `n` screens.
    pub open spec fn wf(self, n: nat) -> bool {
        &&& self.sized()
        &&& edge_ok(self.edges.top, n)
        &&& edge_ok(self.edges.right, n)
        &&& edge_ok(self.edges.bottom, n)
        &&& edge_ok(self.edges.left, n)
    }

    pub open spec fn has_ip(self, ip: IpAddress) -> bool {
        exists|m: int| 0 <= m < self.addrs.len() && (#[trigger] self.addrs[m]).ip == ip
    }
}

/// Between one and 256 screens, each well formed.
pub open spec fn screens_wf(screens: Seq<ScreenView>) -> bool {
    &&& 1 <= screens.len() <= 256
    &&& forall|i: int| 0 <= i < screens.len() ==> (#[trigger] screens[i]).wf(screens.len())
}

impl ClusterView {
    pub open spec fn len(self) -> nat {
        self.screens.len()
    }

    pub open spec fn in_bounds(self, f: Focus) -> bool {
        &&& f.index < self.len()
        &&& 0 <= f.pos.x < self.screens[f.index as int].size.x
        &&& 0 <= f.pos.y < self.screens[f.index as int].size.y
    }

    /// Valid screens, a valid local screen, and a focus within its screen.
    pub open spec fn wf(self) -> bool {
        &&& screens_wf(self.screens)
        &&& self.local_screen < self.len()
        &&& self.in_bounds(self.focus)
    }

    pub open spec fn locally_focused(self) -> bool {
        self.focus.index == self.local_screen
    }
}

/// The non-loopback addresses among `ips`, in order, each with `port`.
pub open spec fn routable(ips: Seq<IpAddress>, port: u16) -> Seq<Addr>
    decreases ips.len(),
{
    if ips.len() == 0 {
        Seq::empty()
    } else {
        let prev = routable(ips.drop_last(), port);
        if is_loopback(ips.last()) {
            prev
        } else {
            prev.push(Addr { ip: ips.last(), port })
        }
    }
}

/// The views of a sequence of screens.
pub open spec fn views(screens: Seq<Screen>) -> Seq<ScreenView> {
    screens.map_values(|s: Screen| s@)
}

pub open spec fn no_edges() -> Edges {
    Edges { top: None, right: None, bottom: None, left: None }
}

/// The host-side effects of committing focus `g` when the local screen held
/// focus before (`was`) and holds it after (`now`): one grab when focus
/// leaves, one release when it returns, and a position re-sync whenever the
/// local screen holds focus.
pub open spec fn focus_effects(was: bool, now: bool, g: Focus) -> Seq<Action> {
    if now {
        let sync = Action::Inject(HostEvent::Position(PositionEvent { x: g.pos.x, y: g.pos.y }));
        if was {
            seq![sync]
        } else {
            seq![Action::Ungrab, sync]
        }
    } else if was {
        seq![Action::Grab]
    } else {
        Seq::empty()
    }
}

impl ClusterView {
    /// The cluster with its focus committed to `normalize(f)`, and the
    /// host-side effects of that commit when the local screen held focus
    /// before exactly when `was`.
    pub open spec fn commit(self, f: Focus, was: bool) -> (ClusterView, Seq<Action>) {
        let g = self.normalize(f);
        let next = ClusterView { local_screen: self.local_screen, screens: self.screens, focus: g };
        (next, focus_effects(was, next.locally_focused(), g))
    }
}

/// `msg` addressed to the default route of the focused screen; nothing when
/// that screen has no address.
pub open spec fn to_focused(c: ClusterView, msg: Outgoing) -> Seq<Action> {
    let s = c.screens[c.focus.index as int];
    if s.addrs.len() > 0 {
        seq![Action::Unicast(msg, s.addrs[0])]
    } else {
        Seq::empty()
    }
}

impl ClusterView {
    /// The cluster after a local input event, and what it asks to be done.
    pub open spec fn host_step(self, e: HostEvent) -> (ClusterView, Seq<Action>) {
        match e {
            HostEvent::Motion(m) => {
                if m.dx == 0 && m.dy == 0 {
                    (self, Seq::empty())
                } else {
                    let f = Focus {
                        index: self.focus.index,
                        pos: Dimensions {
                            x: saturate(self.focus.pos.x + m.dx),
                            y: saturate(self.focus.pos.y + m.dy),
                        },
                    };
                    let (next, effects) = self.commit(f, self.locally_focused());
                    let g = next.focus;
                    let net = if g.index != self.focus.index {
                        seq![Action::Broadcast(Outgoing::Focus(g))]
                    } else if g.index != self.local_screen {
                        to_focused(next, Outgoing::Focus(g))
                    } else {
                        Seq::empty()
                    };
                    (next, effects + net)
                }
            },
            HostEvent::Button(b) => if self.locally_focused() {
                (self, Seq::empty())
            } else {
                (self, to_focused(self, Outgoing::Button(b)))
            },
            HostEvent::Key(k) => if self.locally_focused() {
                (self, Seq::empty())
            } else {
                (self, to_focused(self, Outgoing::Key(k)))
            },
            _ => (self, Seq::empty()),
        }
    }

    /// The event to inject on the local host for a button or key from a
    /// peer: only while the local screen holds focus.
    pub open spec fn injected(self, e: NetEvent) -> Option<HostEvent> {
        if self.locally_focused() {
            match e {
                NetEvent::Button(b) => Some(HostEvent::Button(b)),
                NetEvent::Key(k) => Some(HostEvent::Key(k)),
                _ => None,
            }
        } else {
            None
        }
    }
}

impl IpAddress {
    /// A loopback address: 127.0.0.0/8 or ::1.
    pub fn is_loopback(&self) -> (r: bool)
        ensures
            r == is_loopback(*self),
    {
        match self {
            IpAddress::V4(a) => *a / 0x100_0000 == 127,
            IpAddress::V6(a) => *a == 1,
        }
    }
}

impl Screen {
    /// A screen of the given size with no neighbours, reachable at each
    /// non-loopback address of the host on `port`.
    pub fn new(name: String, width: i32, height: i32, host_ips: &Vec<IpAddress>, port: u16) -> (r: Screen)
        ensures
            r@ == (ScreenView {
                name: name@,
                size: Dimensions { x: width, y: height },
                edges: no_edges(),
                addrs: routable(host_ips@, port),
            }),
    {
        let mut addrs: Vec<Addr> = Vec::new();
        let mut i: usize = 0;
        while i < host_ips.len()
            invariant
                i <= host_ips@.len(),
                addrs@ == routable(host_ips@.take(i as int), port),
            decreases host_ips@.len() - i,
        {
            let ip = host_ips[i];
            assert(host_ips@.take(i as int + 1).drop_last() =~= host_ips@.take(i as int));
            if !ip.is_loopback() {
                addrs.push(Addr { ip, port });
            }
            i = i + 1;
        }
        assert(host_ips@.take(i as int) =~= host_ips@);
        Screen { name, size: Dimensions { x: width, y: height }, edges: no_edges_exec(), addrs }
    }

    /// A screen from its parts, as received from a peer or loaded from a
    /// saved layout.
    pub fn from_parts(name: String, size: Dimensions, edges: Edges, addrs: Vec<Addr>) -> (r: Screen)
        ensures
            r@ == (ScreenView { name: name@, size, edges, addrs: addrs@ }),
    {
        Screen { name, size, edges, addrs }
    }

    /// A copy of the screen.
    pub fn duplicate(&self) -> (r: Screen)
        ensures
            r@ == self@,
    {
        let mut addrs: Vec<Addr> = Vec::new();
        let mut i: usize = 0;
        while i < self.addrs.len()
            invariant
                i <= self.addrs@.len(),
                addrs@ == self.addrs@.take(i as int),
            decreases self.addrs@.len() - i,
        {
            addrs.push(self.addrs[i]);
            i = i + 1;
            assert(addrs@ =~= self.addrs@.take(i as int));
        }
        assert(self.addrs@.take(i as int) =~= self.addrs@);
        Screen { name: self.name.clone(), size: self.size, edges: self.edges, addrs }
    }

    pub fn name(&self) -> (r: &String)
        ensures
            r@ == self@.name,
    {
        &self.name
    }

    pub fn size(&self) -> (r: Dimensions)
        ensures
            r == self@.size,
    {
        self.size
    }

    pub fn edges(&self) -> (r: Edges)
        ensures
            r == self@.edges,
    {
        self.edges
    }

    pub fn addrs(&self) -> (r: &Vec<Addr>)
        ensures
            r@ == self@.addrs,
    {
        &self.addrs
    }

    /// Links the screen to its neighbours.
    pub fn set_edges(&mut self, edges: Edges)
        ensures
            final(self)@ == (ScreenView { edges, ..old(self)@ }),
    {
        self.edges = edges;
    }

    /// The first address, used for unicast; none for a screen with no
    /// known address.
    pub fn default_route(&self) -> (r: Option<Addr>)
        ensures
            r == (if self@.addrs.len() > 0 {
                Some(self@.addrs[0])
            } else {
                None
            }),
    {
        if self.addrs.len() > 0 {
            Some(self.addrs[0])
        } else {
            None
        }
    }

    fn valid(&self, n: usize) -> (r: bool)
        ensures
            r == self@.wf(n as nat),
    {
        self.size.x >= 1 && self.size.y >= 1 && edge_valid(self.edges.top, n) && edge_valid(
            self.edges.right,
            n,
        ) && edge_valid(self.edges.bottom, n) && edge_valid(self.edges.left, n)
    }
}

fn no_edges_exec() -> (r: Edges)
    ensures
        r == no_edges(),
{
    Edges { top: None, right: None, bottom: None, left: None }
}

fn edge_valid(e: Option<Index>, n: usize) -> (r: bool)
    ensures
        r == edge_ok(e, n as nat),
{
    match e {
        Some(j) => (j as usize) < n,
        None => true,
    }
}

/// Whether `screens` can form a cluster: between one and 256 screens, each
/// sized, with every edge naming one of them.
fn screens_valid(screens: &Vec<Screen>) -> (r: bool)
    ensures
        r == screens_wf(views(screens@)),
{
    let n = screens.len();
    if n < 1 || n > 256 {
        return false;
    }
    let mut i: usize = 0;
    while i < n
        invariant
            n == screens@.len(),
            1 <= n <= 256,
            i <= n,
            forall|k: int| 0 <= k < i ==> (#[trigger] views(screens@)[k]).wf(n as nat),
        decreases n - i,
    {
        if !screens[i].valid(n) {
            assert(!views(screens@)[i as int].wf(n as nat));
            return false;
        }
        i = i + 1;
    }
    true
}

/// The host could not find any of its own addresses in a cluster.
#[derive(Clone, Copy, Debug, PartialEq, Eq, Structural)]
pub struct NotInCluster;

impl Cluster {
    /// The single-screen cluster of a machine that has just started, with
    /// the cursor at (`x`, `y`) brought onto the screen.
    pub fn new(screen: Screen, x: i32, y: i32) -> (r: Cluster)
        requires
            screen@.wf(1),
        ensures
            r@.wf(),
            r@.local_screen == 0,
            r@.screens == seq![screen@],
            r@.focus == r@.normalize(Focus { index: 0, pos: Dimensions { x, y } }),
    {
        let mut c = Cluster {
            local_screen: 0,
            screens: vec![screen],
            focus: Focus { index: 0, pos: Dimensions { x, y } },
        };
        assert(c@.screens =~= seq![screen@]);
        let f = c.normalize_focus(c.focus);
        c.focus = f;
        c
    }

    /// A cluster over a saved layout, this machine taken as its first
    /// screen, with the cursor at (`x`, `y`) brought onto the screens; none
    /// when the layout is not a valid one.
    pub fn with_screens(screens: Vec<Screen>, x: i32, y: i32) -> (r: Option<Cluster>)
        ensures
            r is Some <==> screens_wf(views(screens@)),
            r matches Some(c) ==> c@.wf() && c@.local_screen == 0 && c@.screens == views(screens@)
                && c@.focus == c@.normalize(Focus { index: 0, pos: Dimensions { x, y } }),
    {
        if !screens_valid(&screens) {
            return None;
        }
        let mut c = Cluster {
            local_screen: 0,
            screens,
            focus: Focus { index: 0, pos: Dimensions { x, y } },
        };
        let f = c.normalize_focus(c.focus);
        c.focus = f;
        Some(c)
    }

    /// A cluster from its parts, as received from a peer; none unless they
    /// form a well-formed cluster.
    pub fn from_parts(local_screen: Index, screens: Vec<Screen>, focus: Focus) -> (r: Option<Cluster>)
        ensures
            r is Some <==> (ClusterView { local_screen, screens: views(screens@), focus }).wf(),
            r matches Some(c) ==> c@ == (ClusterView { local_screen, screens: views(screens@), focus }),
    {
        let c = Cluster { local_screen, screens, focus };
        if c.is_well_formed() {
            Some(c)
        } else {
            None
        }
    }

    pub fn is_well_formed(&self) -> (r: bool)
        ensures
            r == self@.wf(),
    {
        if !screens_valid(&self.screens) {
            return false;
        }
        let n = self.screens.len();
        if (self.local_screen as usize) >= n || (self.focus.index as usize) >= n {
            return false;
        }
        let s = &self.screens[self.focus.index as usize];
        0 <= self.focus.pos.x && self.focus.pos.x < s.size.x && 0 <= self.focus.pos.y
            && self.focus.pos.y < s.size.y
    }

    /// A copy of the cluster, to hand to a peer.
    pub fn duplicate(&self) -> (r: Cluster)
        ensures
            r@ == self@,
    {
        let mut screens: Vec<Screen> = Vec::new();
        let mut i: usize = 0;
        while i < self.screens.len()
            invariant
                i <= self.screens@.len(),
                screens@.len() == i,
                views(screens@) == views(self.screens@).take(i as int),
            decreases self.screens@.len() - i,
        {
            let s = self.screens[i].duplicate();
            let ghost before = screens@;
            screens.push(s);
            proof {
                assert forall|j: int| 0 <= j < i + 1 implies #[trigger] views(screens@)[j] == views(
                    self.screens@,
                )[j] by {
                    if j < i {
                        assert(screens@[j] == before[j]);
                        assert(views(before)[j] == views(self.screens@).take(i as int)[j]);
                    }
                }
            }
            i = i + 1;
            assert(views(screens@) =~= views(self.screens@).take(i as int));
        }
        assert(views(self.screens@).take(i as int) =~= views(self.screens@));
        Cluster { local_screen: self.local_screen, screens, focus: self.focus }
    }

    pub fn local_screen(&self) -> (r: Index)
        ensures
            r == self@.local_screen,
    {
        self.local_screen
    }

    pub fn focus(&self) -> (r: Focus)
        ensures
            r == self@.focus,
    {
        self.focus
    }

    pub fn screens(&self) -> (r: &Vec<Screen>)
        ensures
            views(r@) == self@.screens,
    {
        &self.screens
    }

    pub fn focused_screen(&self) -> (r: &Screen)
        requires
            self@.wf(),
        ensures
            r@ == self@.screens[self@.focus.index as int],
    {
        &self.screens[self.focus.index as usize]
    }

    pub fn locally_focused(&self) -> (r: bool)
        ensures
            r == self@.locally_focused(),
    {
        self.focus.index == self.local_screen
    }

    fn to_focused(&self, msg: Outgoing) -> (r: Vec<Action>)
        requires
            self@.wf(),
        ensures
            r@ == to_focused(self@, msg),
    {
        match self.focused_screen().default_route() {
            Some(a) => {
                let v = vec![Action::Unicast(msg, a)];
                assert(v@ =~= seq![Action::Unicast(msg, a)]);
                v
            },
            None => Vec::new(),
        }
    }

    /// Routes a local input event. A motion moves the focus through the
    /// normalizer: onto another screen it is broadcast to every peer; on a
    /// remote screen it goes to that screen alone; on the local screen
    /// nothing is sent. Buttons and keys go to the focused screen only while
    /// it is not the local one. Anything else is not routed.
    pub fn process_host_event(&mut self, event: HostEvent) -> (r: Vec<Action>)
        requires
            old(self)@.wf(),
        ensures
            (final(self)@, r@) == old(self)@.host_step(event),
            final(self)@.wf(),
    {
        match event {
            HostEvent::Motion(m) => {
                if m.dx == 0 && m.dy == 0 {
                    return Vec::new();
                }
                let prev = self.focus;
                let f = Focus {
                    index: prev.index,
                    pos: Dimensions { x: shift(prev.pos.x, m.dx, 0), y: shift(prev.pos.y, m.dy, 0) },
                };
                let mut effects = self.refocus(f);
                let ghost committed = effects@;
                let g = self.focus;
                if g.index != prev.index {
                    effects.push(Action::Broadcast(Outgoing::Focus(g)));
                    assert(effects@ =~= committed + seq![Action::Broadcast(Outgoing::Focus(g))]);
                } else if g.index != self.local_screen {
                    let mut net = self.to_focused(Outgoing::Focus(g));
                    effects.append(&mut net);
                } else {
                    assert(effects@ =~= committed + Seq::<Action>::empty());
                }
                effects
            },
            HostEvent::Button(b) => {
                if self.locally_focused() {
                    Vec::new()
                } else {
                    self.to_focused(Outgoing::Button(b))
                }
            },
            HostEvent::Key(k) => {
                if self.locally_focused() {
                    Vec::new()
                } else {
                    self.to_focused(Outgoing::Key(k))
                }
            },
            _ => Vec::new(),
        }
    }

    /// A button or key from a peer, as the event to inject on the local
    /// host; none unless the local screen holds focus, or for any other
    /// message.
    pub fn process_net_event(&mut self, event: NetEvent) -> (r: Option<HostEvent>)
        ensures
            r == old(self)@.injected(event),
            final(self)@ == old(self)@,
    {
        if self.locally_focused() {
            match event {
                NetEvent::Button(b) => Some(HostEvent::Button(b)),
                NetEvent::Key(k) => Some(HostEvent::Key(k)),
                _ => None,
            }
        } else {
            None
        }
    }

    /// Commits `focus` through the normalizer and returns the host-side
    /// effects, given whether the local screen held focus before.
    fn private_refocus(&mut self, focus: Focus, was_focused: bool) -> (r: Vec<Action>)
        requires
            screens_wf(old(self)@.screens),
            old(self)@.local_screen < old(self)@.len(),
            focus.index < old(self)@.len(),
        ensures
            (final(self)@, r@) == old(self)@.commit(focus, was_focused),
            final(self)@.wf(),
    {
        self.focus = self.normalize_focus(focus);
        let mut effects: Vec<Action> = Vec::new();
        if self.locally_focused() {
            if !was_focused {
                effects.push(Action::Ungrab);
            }
            effects.push(
                Action::Inject(
                    HostEvent::Position(PositionEvent { x: self.focus.pos.x, y: self.focus.pos.y }),
                ),
            );
        } else if was_focused {
            effects.push(Action::Grab);
        }
        assert(self@.screens == old(self)@.screens);
        assert(effects@ =~= focus_effects(was_focused, self@.locally_focused(), self.focus));
        effects
    }

    /// Commits `focus` through the normalizer. Grab and release are edge
    /// triggered: one grab as focus leaves the local screen, one release
    /// (followed by a position re-sync) as it returns, none otherwise.
    pub fn refocus(&mut self, focus: Focus) -> (r: Vec<Action>)
        requires
            old(self)@.wf(),
            focus.index < old(self)@.len(),
        ensures
            (final(self)@, r@) == old(self)@.commit(focus, old(self)@.locally_focused()),
            final(self)@.wf(),
    {
        let was_focused = self.locally_focused();
        self.private_refocus(focus, was_focused)
    }
}

} // verus!
