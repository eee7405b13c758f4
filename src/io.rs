//! The events exchanged with the host and the network, the two capability
//! interfaces a platform provides, and the actions the router asks for.

use vstd::prelude::*;

use crate::cluster::{Addr, Cluster, Focus, Screen};

verus! {

/// What a platform input driver offers: the screen, the cursor, grabbing
/// and releasing the local devices, and reading and synthesizing events.
pub trait HostInterface {
    fn screen_size(&self) -> (i32, i32);

    fn cursor_pos(&self) -> (i32, i32);

    fn grab_cursor(&self);

    fn ungrab_cursor(&self);

    fn grab_keyboard(&self);

    fn ungrab_keyboard(&self);

    fn recv_event(&self) -> Option<HostEvent>;

    fn send_event(&self, event: HostEvent);
}

/// Why a send on the network transport did not go out.
#[derive(Clone, Copy, Debug, PartialEq, Eq, Structural)]
pub enum NetError {
    /// The OS send buffer is full; the datagram is dropped.
    WouldBlock,
    /// Any other failure of the socket.
    Failed,
}

/// What the network transport offers: non-blocking unicast, multicast to
/// every peer, and non-blocking receive, each datagram carrying a list of
/// events.
pub trait NetInterface {
    fn send_to(&self, events: &Vec<NetEvent>, addr: &Addr) -> Result<(), NetError>;

    fn send_to_all(&self, events: &Vec<NetEvent>) -> Result<(), NetError>;

    fn recv_from(&self) -> Result<Option<(Vec<NetEvent>, Addr)>, NetError>;
}

/// An input event of the local host, read from it or synthesized on it.
#[derive(Clone, Copy, Debug, PartialEq, Eq, Structural)]
pub enum HostEvent {
    Position(PositionEvent),
    Motion(MotionEvent),
    Button(ButtonEvent),
    Key(KeyEvent),
    Selection(Selection),
}

/// A message between peers.
#[derive(Debug)]
pub enum NetEvent {
    /// A node announces itself with its own view of the cluster.
    Connect(Cluster),
    /// An authoritative cluster for the receiver to adopt.
    Cluster(Cluster),
    /// The shared belief of which screen owns input, and where.
    Focus(Focus),
    Button(ButtonEvent),
    Key(KeyEvent),
    /// A configuration client asks for the current cluster.
    RequestCluster,
    /// A configuration client supplies a new screen layout.
    Screens(Vec<Screen>),
}

#[derive(Clone, Copy, Debug, PartialEq, Eq, Structural)]
pub struct PositionEvent {
    pub x: i32,
    pub y: i32,
}

#[derive(Clone, Copy, Debug, PartialEq, Eq, Structural)]
pub struct MotionEvent {
    pub dx: i32,
    pub dy: i32,
}

#[derive(Clone, Copy, Debug, PartialEq, Eq, Structural)]
pub struct ButtonEvent {
    pub button: u32,
    pub state: bool,
}

#[derive(Clone, Copy, Debug, PartialEq, Eq, Structural)]
pub struct KeyEvent {
    pub key: u64,
    pub state: bool,
}

#[derive(Clone, Copy, Debug, PartialEq, Eq, Structural)]
pub enum Selection {
    Primary,
    Clipboard,
}

/// A message the router asks to send; `Connect` and `Cluster` carry the
/// router's cluster as it stands after the call that asked for them.
#[derive(Clone, Copy, Debug, PartialEq, Eq, Structural)]
pub enum Outgoing {
    Connect,
    Cluster,
    Focus(Focus),
    Button(ButtonEvent),
    Key(KeyEvent),
}

/// An effect that the router asks its driver to carry out, in order.
#[derive(Clone, Copy, Debug, PartialEq, Eq, Structural)]
pub enum Action {
    /// Grab the local cursor, then the local keyboard.
    Grab,
    /// Release the local cursor, then the local keyboard.
    Ungrab,
    /// Synthesize the event on the local host.
    Inject(HostEvent),
    /// Send the message to every peer.
    Broadcast(Outgoing),
    /// Send the message to one peer.
    Unicast(Outgoing, Addr),
    /// Hand the current cluster to the configuration clients.
    Publish,
}

} // verus!
