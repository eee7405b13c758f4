//! Shared-input topology library: screens linked into a cluster, focus
//! normalization across screen edges, cluster synchronization, the event
//! routing state machine and the packet sequencing discipline.

mod cluster;
mod event;
mod io;
mod router;
mod sequence;

pub use cluster::{
    Addr, Cluster, ClusterView, Dimensions, Direction, Edges, Focus, Index, IpAddress,
    NotInCluster, Screen, ScreenView, MARGIN,
};
pub use event::{CursorButton, CursorClick, CursorMotion, Key, Keyboard, Server};
pub use io::{
    Action, ButtonEvent, HostEvent, HostInterface, KeyEvent, MotionEvent, NetError, NetEvent,
    NetInterface, Outgoing, PositionEvent, Selection,
};
pub use router::{Config, Elemeld, RouterView, State};
pub use sequence::{frame, unframe, Sequencer, Verdict, HEADER_LEN};
