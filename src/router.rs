//! The event router: the joining protocol's state machine and the
//! dispatch of host, network and configuration events.

use vstd::prelude::*;

use crate::cluster::{
    focus_effects, screens_wf, views, Addr, Cluster, ClusterView, Focus, IpAddress, NotInCluster,
    Screen, ScreenView,
};
use crate::io::{Action, HostEvent, NetEvent, Outgoing, PositionEvent};

verus! {

/// Where this node listens and where its peers meet.
#[derive(Clone, Copy, Debug, PartialEq, Eq, Structural)]
pub struct Config {
    pub server_addr: IpAddress,
    pub multicast_addr: IpAddress,
    pub port: u16,
}

impl Config {
    /// The endpoint that reaches every peer at once.
    pub fn multicast_target(&self) -> (r: Addr)
        ensures
            r == (Addr { ip: self.multicast_addr, port: self.port }),
    {
        Addr { ip: self.multicast_addr, port: self.port }
    }

    /// The endpoint this node binds to.
    pub fn bind_target(&self) -> (r: Addr)
        ensures
            r == (Addr { ip: self.server_addr, port: self.port }),
    {
        Addr { ip: self.server_addr, port: self.port }
    }
}

/// Where a node stands in joining the cluster.
#[derive(Clone, Copy, Debug, PartialEq, Eq, Structural)]
pub enum State {
    /// Nothing sent yet; the first chance to send announces this node.
    Connecting,
    /// Announced; awaiting a peer's cluster.
    Waiting,
    /// Part of the cluster; input is routed.
    Connected,
}

/// The router as the contracts see it.
pub struct RouterView {
    pub cluster: ClusterView,
    pub state: State,
    pub host_ips: Seq<IpAddress>,
}

/// The event router: owns the cluster and decides, for each local or remote
/// event, what to commit and what to send where.
#[derive(Debug)]
pub struct Elemeld {
    cluster: Cluster,
    state: State,
    host_ips: Vec<IpAddress>,
}

impl View for Elemeld {
    type V = RouterView;

    closed spec fn view(&self) -> RouterView {
        RouterView { cluster: self.cluster@, state: self.state, host_ips: self.host_ips@ }
    }
}

impl RouterView {
    pub open spec fn wf(self) -> bool {
        self.cluster.wf()
    }

    pub open spec fn with_cluster(self, c: ClusterView) -> RouterView {
        RouterView { cluster: c, ..self }
    }

    /// The router after a local input event, and what it asks to be done:
    /// nothing is routed until connected.
    pub open spec fn host_step(self, e: HostEvent) -> (RouterView, Seq<Action>) {
        if self.state != State::Connected {
            (self, Seq::empty())
        } else {
            let (next, actions) = self.cluster.host_step(e);
            (self.with_cluster(next), actions)
        }
    }

    /// The router after merging in a peer's cluster: a node not yet
    /// connected replies to the sender and is connected; a connected node
    /// rebroadcasts the merged cluster.
    pub open spec fn join_step(self, peer: ClusterView, from: Addr) -> (RouterView, Seq<Action>) {
        let c = self.cluster.merge(peer);
        if self.state == State::Connected {
            (self.with_cluster(c), seq![Action::Publish, Action::Broadcast(Outgoing::Cluster)])
        } else {
            (
                RouterView { cluster: c, state: State::Connected, ..self },
                seq![Action::Publish, Action::Unicast(Outgoing::Cluster, from)],
            )
        }
    }

    /// The router after a message from peer `from`, and what it asks to be
    /// done; none when a cluster to adopt does not hold this host.
    pub open spec fn net_step(self, e: NetEvent, from: Addr) -> Option<(RouterView, Seq<Action>)> {
        let c = self.cluster;
        match e {
            NetEvent::Connect(p) => if !p@.wf() {
                Some((self, Seq::empty()))
            } else {
                Some(self.join_step(p@, from))
            },
            NetEvent::Cluster(p) => if !p@.wf() {
                Some((self, Seq::empty()))
            } else if self.state == State::Connected {
                Some(self.join_step(p@, from))
            } else {
                match c.replace(p@, self.host_ips) {
                    Some((next, effects)) => Some(
                        (
                            RouterView { cluster: next, state: State::Connected, ..self },
                            effects.push(Action::Publish),
                        ),
                    ),
                    None => None,
                }
            },
            NetEvent::Focus(f) => Some(self.focus_step(f)),
            NetEvent::Button(_) | NetEvent::Key(_) => match c.injected(e) {
                Some(h) => Some((self, seq![Action::Inject(h)])),
                None => Some((self, Seq::empty())),
            },
            NetEvent::RequestCluster => Some((self, seq![Action::Unicast(Outgoing::Cluster, from)])),
            NetEvent::Screens(v) => Some(self.layout_step(views(v@))),
        }
    }

    /// The router after a focus update from a peer: committed through the
    /// normalizer, or dropped when it names a screen not known here.
    pub open spec fn focus_step(self, f: Focus) -> (RouterView, Seq<Action>) {
        let c = self.cluster;
        if f.index >= c.len() {
            (self, Seq::empty())
        } else {
            let (next, effects) = c.commit(f, c.locally_focused());
            (self.with_cluster(next), effects)
        }
    }

    /// `screens` is a valid layout that still holds the local and the
    /// focused screen.
    pub open spec fn layout_ok(self, screens: Seq<ScreenView>) -> bool {
        &&& screens_wf(screens)
        &&& self.cluster.local_screen < screens.len()
        &&& self.cluster.focus.index < screens.len()
    }

    /// The router after a new screen layout: the focus committed against
    /// it, or nothing changed when the layout is not valid for this cluster.
    pub open spec fn layout_step(self, screens: Seq<ScreenView>) -> (RouterView, Seq<Action>) {
        let c = self.cluster;
        if self.layout_ok(screens) {
            let (committed, effects) = (ClusterView { screens, ..c }).commit(c.focus, c.locally_focused());
            (self.with_cluster(committed), effects)
        } else {
            (self, Seq::empty())
        }
    }

    /// The router after a message from a configuration client: a new
    /// layout is applied and the cluster broadcast; a request for the
    /// cluster publishes it.
    pub open spec fn config_step(self, e: NetEvent) -> (RouterView, Seq<Action>) {
        match e {
            NetEvent::Screens(v) => if self.layout_ok(views(v@)) {
                let (next, effects) = self.layout_step(views(v@));
                (next, effects.push(Action::Broadcast(Outgoing::Cluster)))
            } else {
                (self, Seq::empty())
            },
            NetEvent::RequestCluster => (self, seq![Action::Publish]),
            _ => (self, Seq::empty()),
        }
    }

    /// The router when the network first accepts a send.
    pub open spec fn writable_step(self) -> (RouterView, Seq<Action>) {
        if self.state == State::Connecting {
            (
                RouterView { state: State::Waiting, ..self },
                seq![Action::Broadcast(Outgoing::Connect)],
            )
        } else {
            (self, Seq::empty())
        }
    }
}

/// The router after a sequence of local input events.
pub open spec fn host_run(r: RouterView, events: Seq<HostEvent>) -> RouterView
    decreases events.len(),
{
    if events.len() == 0 {
        r
    } else {
        host_run(r, events.drop_last()).host_step(events.last()).0
    }
}

/// The router after a sequence of focus updates from peers, and every
/// action asked for on the way.
pub open spec fn focus_run(r: RouterView, updates: Seq<Focus>) -> (RouterView, Seq<Action>)
    decreases updates.len(),
{
    if updates.len() == 0 {
        (r, Seq::empty())
    } else {
        let (mid, before) = focus_run(r, updates.drop_last());
        let (next, last) = mid.focus_step(updates.last());
        (next, before + last)
    }
}

/// How many times `a` occurs in `s`.
pub open spec fn count(s: Seq<Action>, a: Action) -> int
    decreases s.len(),
{
    if s.len() == 0 {
        0
    } else {
        count(s.drop_last(), a) + if s.last() == a {
            1int
        } else {
            0int
        }
    }
}

/// How many of the focus updates move focus off the local screen
/// (`leaving`), or back onto it (`!leaving`).
pub open spec fn flips(r: RouterView, updates: Seq<Focus>, leaving: bool) -> int
    decreases updates.len(),
{
    if updates.len() == 0 {
        0
    } else {
        let mid = focus_run(r, updates.drop_last()).0;
        let next = mid.focus_step(updates.last()).0;
        let was = mid.cluster.locally_focused();
        let now = next.cluster.locally_focused();
        flips(r, updates.drop_last(), leaving) + if (leaving && was && !now) || (!leaving && !was
            && now) {
            1int
        } else {
            0int
        }
    }
}

proof fn lemma_count_concat(s: Seq<Action>, t: Seq<Action>, a: Action)
    ensures
        count(s + t, a) == count(s, a) + count(t, a),
    decreases t.len(),
{
    if t.len() > 0 {
        lemma_count_concat(s, t.drop_last(), a);
        assert((s + t).drop_last() =~= s + t.drop_last());
    }
}

/// Local input events alone never change the router's state: in
/// particular a router still connecting stays so whatever the host does.
pub proof fn lemma_host_events_keep_state(r: RouterView, events: Seq<HostEvent>)
    ensures
        host_run(r, events).state == r.state,
    decreases events.len(),
{
    if events.len() > 0 {
        lemma_host_events_keep_state(r, events.drop_last());
    }
}

/// Only an announcement or a cluster from a peer connects a router: no
/// other message, no local event, and no chance to send does.
pub proof fn lemma_connected_only_by_cluster_messages(r: RouterView, e: NetEvent, from: Addr, h: HostEvent)
    requires
        r.state != State::Connected,
    ensures
        r.host_step(h).0.state == r.state,
        r.writable_step().0.state != State::Connected,
        r.config_step(e).0.state == r.state,
        (r.net_step(e, from) matches Some((next, _)) && next.state == State::Connected) ==> (
        e is Connect || e is Cluster),
{
}

/// Grab and release are edge triggered: over any sequence of focus updates
/// from peers, the router asks for exactly one grab per move of focus off
/// the local screen and one release per move back onto it, and never for
/// one on an update that keeps focus where it was.
pub proof fn lemma_grab_once_per_flip(r: RouterView, updates: Seq<Focus>)
    ensures
        count(focus_run(r, updates).1, Action::Grab) == flips(r, updates, true),
        count(focus_run(r, updates).1, Action::Ungrab) == flips(r, updates, false),
    decreases updates.len(),
{
    if updates.len() > 0 {
        lemma_grab_once_per_flip(r, updates.drop_last());
        let (mid, before) = focus_run(r, updates.drop_last());
        let (next, last) = mid.focus_step(updates.last());
        lemma_count_concat(before, last, Action::Grab);
        lemma_count_concat(before, last, Action::Ungrab);
        if updates.last().index < mid.cluster.len() {
            lemma_effects_count(
                mid.cluster.locally_focused(),
                next.cluster.locally_focused(),
                next.cluster.focus,
            );
        }
    }
}

proof fn lemma_effects_count(was: bool, now: bool, g: Focus)
    ensures
        count(focus_effects(was, now, g), Action::Grab) == if was && !now {
            1int
        } else {
            0int
        },
        count(focus_effects(was, now, g), Action::Ungrab) == if !was && now {
            1int
        } else {
            0int
        },
{
    let sync = Action::Inject(HostEvent::Position(PositionEvent { x: g.pos.x, y: g.pos.y }));
    assert(seq![sync].drop_last() =~= Seq::<Action>::empty());
    assert(seq![Action::Ungrab, sync].drop_last() =~= seq![Action::Ungrab]);
    assert(seq![Action::Ungrab].drop_last() =~= Seq::<Action>::empty());
    assert(seq![Action::Grab].drop_last() =~= Seq::<Action>::empty());
    reveal_with_fuel(count, 3);
}

impl Elemeld {
    /// A router over `cluster` on a host with addresses `host_ips`, about to
    /// announce itself.
    pub fn new(cluster: Cluster, host_ips: Vec<IpAddress>) -> (r: Elemeld)
        requires
            cluster@.wf(),
        ensures
            r@ == (RouterView { cluster: cluster@, state: State::Connecting, host_ips: host_ips@ }),
            r@.wf(),
    {
        Elemeld { cluster, state: State::Connecting, host_ips }
    }

    pub fn cluster(&self) -> (r: &Cluster)
        ensures
            r@ == self@.cluster,
    {
        &self.cluster
    }

    pub fn state(&self) -> (r: State)
        ensures
            r == self@.state,
    {
        self.state
    }

    /// Routes a local input event once connected (see
    /// `Cluster::process_host_event`); before that nothing is routed.
    pub fn host_event(&mut self, event: HostEvent) -> (r: Vec<Action>)
        requires
            old(self)@.wf(),
        ensures
            (final(self)@, r@) == old(self)@.host_step(event),
            final(self)@.wf(),
    {
        if self.state != State::Connected {
            return Vec::new();
        }
        self.cluster.process_host_event(event)
    }

    fn join(&mut self, peer: Cluster, from: Addr) -> (r: Vec<Action>)
        requires
            old(self)@.wf(),
            peer@.wf(),
        ensures
            (final(self)@, r@) == old(self)@.join_step(peer@, from),
            final(self)@.wf(),
    {
        self.cluster.merge(peer);
        if self.state == State::Connected {
            let v = vec![Action::Publish, Action::Broadcast(Outgoing::Cluster)];
            assert(v@ =~= seq![Action::Publish, Action::Broadcast(Outgoing::Cluster)]);
            v
        } else {
            self.state = State::Connected;
            let v = vec![Action::Publish, Action::Unicast(Outgoing::Cluster, from)];
            assert(v@ =~= seq![Action::Publish, Action::Unicast(Outgoing::Cluster, from)]);
            v
        }
    }

    fn apply_layout(&mut self, screens: Vec<Screen>) -> (r: Option<Vec<Action>>)
        requires
            old(self)@.wf(),
        ensures
            r is Some <==> old(self)@.layout_ok(views(screens@)),
            r matches Some(e) ==> (final(self)@, e@) == old(self)@.layout_step(views(screens@)),
            r is None ==> final(self)@ == old(self)@,
            final(self)@.wf(),
    {
        self.cluster.set_screens(screens)
    }

    /// Handles a message from peer `from`. Announcements and clusters are
    /// merged (or, before connecting, a cluster is adopted), focus updates
    /// are committed through the normalizer, and buttons and keys are
    /// injected only while the local screen holds focus. A malformed
    /// cluster, or a focus on a screen not known here, is dropped. The one
    /// error: a cluster to adopt in which this host finds none of its
    /// addresses; the router is then left as it was.
    pub fn net_event(&mut self, event: NetEvent, from: Addr) -> (r: Result<Vec<Action>, NotInCluster>)
        requires
            old(self)@.wf(),
        ensures
            match old(self)@.net_step(event, from) {
                Some((next, actions)) => r matches Ok(v) && v@ == actions && final(self)@ == next,
                None => r is Err && final(self)@ == old(self)@,
            },
            final(self)@.wf(),
    {
        match event {
            NetEvent::Connect(peer) => {
                if !peer.is_well_formed() {
                    return Ok(Vec::new());
                }
                Ok(self.join(peer, from))
            },
            NetEvent::Cluster(peer) => {
                if !peer.is_well_formed() {
                    return Ok(Vec::new());
                }
                if self.state == State::Connected {
                    return Ok(self.join(peer, from));
                }
                match self.cluster.replace(peer, &self.host_ips) {
                    Ok(mut effects) => {
                        effects.push(Action::Publish);
                        self.state = State::Connected;
                        Ok(effects)
                    },
                    Err(e) => Err(e),
                }
            },
            NetEvent::Focus(f) => {
                if (f.index as usize) >= self.cluster.screens().len() {
                    return Ok(Vec::new());
                }
                Ok(self.cluster.refocus(f))
            },
            NetEvent::Button(_) | NetEvent::Key(_) => {
                match self.cluster.process_net_event(event) {
                    Some(h) => {
                        let v = vec![Action::Inject(h)];
                        assert(v@ =~= seq![Action::Inject(h)]);
                        Ok(v)
                    },
                    None => Ok(Vec::new()),
                }
            },
            NetEvent::RequestCluster => {
                let v = vec![Action::Unicast(Outgoing::Cluster, from)];
                assert(v@ =~= seq![Action::Unicast(Outgoing::Cluster, from)]);
                Ok(v)
            },
            NetEvent::Screens(screens) => {
                match self.apply_layout(screens) {
                    Some(effects) => Ok(effects),
                    None => Ok(Vec::new()),
                }
            },
        }
    }

    /// Handles a message from a configuration client.
    pub fn config_event(&mut self, event: NetEvent) -> (r: Vec<Action>)
        requires
            old(self)@.wf(),
        ensures
            (final(self)@, r@) == old(self)@.config_step(event),
            final(self)@.wf(),
    {
        match event {
            NetEvent::Screens(screens) => {
                match self.apply_layout(screens) {
                    Some(mut effects) => {
                        effects.push(Action::Broadcast(Outgoing::Cluster));
                        effects
                    },
                    None => Vec::new(),
                }
            },
            NetEvent::RequestCluster => {
                let v = vec![Action::Publish];
                assert(v@ =~= seq![Action::Publish]);
                v
            },
            _ => Vec::new(),
        }
    }

    /// The network accepts a send: a node that has not announced itself
    /// broadcasts its cluster and waits for a peer's.
    pub fn on_writable(&mut self) -> (r: Vec<Action>)
        requires
            old(self)@.wf(),
        ensures
            (final(self)@, r@) == old(self)@.writable_step(),
            final(self)@.wf(),
    {
        if self.state == State::Connecting {
            self.state = State::Waiting;
            let v = vec![Action::Broadcast(Outgoing::Connect)];
            assert(v@ =~= seq![Action::Broadcast(Outgoing::Connect)]);
            v
        } else {
            Vec::new()
        }
    }
}

} // verus!
