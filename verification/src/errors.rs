//! The error taxonomy.
//!
//! No error ever crosses the host boundary as a fault: each kind is
//! intercepted at the adapter and turned into a defined continuation.
//!
//! * [`ConstructionError`] — one-time setup failed; fatal to that instance,
//!   which is never registered.
//! * [`RuntimeError`] — a per-tick failure; the rest of that tick's work for
//!   the instance is skipped, the instance stays alive.
//! * [`ProtocolError`] — an inbound message could not be interpreted; only
//!   that message is dropped, later messages and the rest of the tick go on.

use vstd::prelude::*;

verus! {

/// Instance construction failed; the handle is never registered.
#[derive(Clone, Copy, PartialEq, Eq, Structural, Debug)]
pub enum ConstructionError {
    /// A required external connection could not be established.
    ConnectionFailed,
    /// The handle is already registered to a live instance; registration is
    /// rejected rather than overwriting (see the registry's policy).
    HandleInUse,
}

/// A per-tick failure: the instance skips the rest of the tick but stays
/// active.
#[derive(Clone, Copy, PartialEq, Eq, Structural, Debug)]
pub enum RuntimeError {
    /// The outbound publish queue was full; the frame report was not queued.
    PublishQueueFull,
}

/// An inbound message could not be interpreted; the message is dropped.
#[derive(Clone, Copy, PartialEq, Eq, Structural, Debug)]
pub enum ProtocolError {
    /// The payload matched none of the declared command schemas.
    MalformedCommand,
}

} // verus!
