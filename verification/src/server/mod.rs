//! The server side: the wire format, the session of one client, the listener
//! and its supervisor.

pub mod protocol;
pub mod server;
pub mod session;

use vstd::prelude::*;
use crate::server::server::Signal;

verus! {

/// How long the server thread waits between two ticks, in milliseconds.
pub const SERVER_TICK_MILLIS: u64 = 50;

/// What the server thread does about its close channel before a tick.
#[derive(Copy, Clone, Debug, PartialEq, Eq, Structural)]
pub enum ServerStep {
    /// Shut the sessions down, then end.
    Shutdown,
    /// End.
    Stop,
    /// Tick the listener, wait, and look again.
    Tick,
}

/// What the supervisor does when the server has returned.
#[derive(Copy, Clone, Debug, PartialEq, Eq, Structural)]
pub enum Restart {
    /// The server is done.
    Stop,
    /// Start the server once more.
    Again,
}

/// What the server thread does about its close channel before a tick: a
/// request to close shuts the sessions down; a channel whose other end is
/// gone just ends the server.
pub fn run_server(closer: Signal) -> (step: ServerStep)
    ensures
        step == (match closer {
            Signal::Close => ServerStep::Shutdown,
            Signal::Disconnected => ServerStep::Stop,
            Signal::Empty => ServerStep::Tick,
        }),
{
    match closer {
        Signal::Close => ServerStep::Shutdown,
        Signal::Disconnected => ServerStep::Stop,
        Signal::Empty => ServerStep::Tick,
    }
}

/// What the supervisor does when the server has returned: a server that
/// failed is started again, unless a close was asked for or nobody is left to
/// ask; a server that returned without an error is done.
pub fn start_server(failed: bool, closer: Signal) -> (r: Restart)
    ensures
        r == (if failed && closer == Signal::Empty {
            Restart::Again
        } else {
            Restart::Stop
        }),
{
    if !failed {
        return Restart::Stop;
    }
    match closer {
        Signal::Empty => Restart::Again,
        _ => Restart::Stop,
    }
}

} // verus!
