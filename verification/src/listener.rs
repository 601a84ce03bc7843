//! The listener task's decisions.
//!
//! The listener accepts connections non-blockingly in a loop while they
//! are immediately available, handing each accepted socket to a fresh
//! connection task; on would-block it suspends (its handle stays
//! registered for readability); any other accept failure is fatal to the
//! whole server, since no connection could ever be served again.

use vstd::prelude::*;

verus! {

/// The outcome of one accept attempt.
pub enum AcceptEvent {
    /// A connection arrived on this new handle.
    Accepted(u64),
    /// Nothing pending; a readiness notification will wake the listener.
    WouldBlock,
    /// The accept failed outright.
    Error,
}

/// What the listener asks of its driver next.
pub enum ListenerAction {
    /// Spawn a connection task for this handle, then try accepting again.
    SpawnConnection(u64),
    /// No connection pending: report the listener task pending.
    Suspend,
    /// Accept failed: stop the server.
    Shutdown,
}

/// Decide what one accept outcome means.
pub fn listener_step(ev: AcceptEvent) -> (a: ListenerAction)
    ensures
        ev matches AcceptEvent::Accepted(fd) ==> a == ListenerAction::SpawnConnection(fd),
        ev is WouldBlock ==> a == ListenerAction::Suspend,
        ev is Error ==> a == ListenerAction::Shutdown,
{
    match ev {
        AcceptEvent::Accepted(fd) => ListenerAction::SpawnConnection(fd),
        AcceptEvent::WouldBlock => ListenerAction::Suspend,
        AcceptEvent::Error => ListenerAction::Shutdown,
    }
}

} // verus!
