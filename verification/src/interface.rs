//! The interface view.
//!
//! For the duration of one per-tick call the host exposes a read-only
//! snapshot of its state — the instance's name, a monotonically
//! non-decreasing frame counter, a position — plus a single mutating
//! capability: requesting shutdown.  The view is built fresh from plain
//! values for each call and is never retained past it.  Coordinates arrive
//! as the host's own rendered text (bytes), since the plugin only ever
//! forwards them verbatim.

use vstd::prelude::*;

verus! {

/// A transient, per-call view of host state.
pub struct Interface {
    name: String,
    frame: u64,
    position_x: Vec<u8>,
    position_y: Vec<u8>,
    position_z: Vec<u8>,
    now_millis: u64,
    shutdown_requested: bool,
}

impl Interface {
    /// The host-side instance name.
    pub closed spec fn spec_name(self) -> Seq<char> {
        self.name@
    }

    /// The host's frame counter at the time of the call.
    pub closed spec fn spec_frame(self) -> u64 {
        self.frame
    }

    /// The three position coordinates, as host-rendered text.
    pub closed spec fn spec_position(self) -> (Seq<u8>, Seq<u8>, Seq<u8>) {
        (self.position_x@, self.position_y@, self.position_z@)
    }

    /// The host clock, in milliseconds, at the time of the call.
    pub closed spec fn spec_now_millis(self) -> u64 {
        self.now_millis
    }

    /// Whether shutdown has been requested through this view.
    pub closed spec fn spec_shutdown_requested(self) -> bool {
        self.shutdown_requested
    }

    /// The read-only snapshot is unchanged: only the shutdown flag may move.
    pub open spec fn same_snapshot(self, other: Interface) -> bool {
        &&& self.spec_name() == other.spec_name()
        &&& self.spec_frame() == other.spec_frame()
        &&& self.spec_position() == other.spec_position()
        &&& self.spec_now_millis() == other.spec_now_millis()
    }

    /// Build the view for one call from plain host-supplied values.
    pub fn new(
        name: String,
        frame: u64,
        position_x: Vec<u8>,
        position_y: Vec<u8>,
        position_z: Vec<u8>,
        now_millis: u64,
    ) -> (view: Interface)
        ensures
            view.spec_name() == name@,
            view.spec_frame() == frame,
            view.spec_position() == (position_x@, position_y@, position_z@),
            view.spec_now_millis() == now_millis,
            !view.spec_shutdown_requested(),
    {
        Interface {
            name,
            frame,
            position_x,
            position_y,
            position_z,
            now_millis,
            shutdown_requested: false,
        }
    }

    /// The instance's name.
    pub fn name(&self) -> (name: &String)
        ensures
            name@ == self.spec_name(),
    {
        &self.name
    }

    /// The host frame counter.
    pub fn frame(&self) -> (frame: u64)
        ensures
            frame == self.spec_frame(),
    {
        self.frame
    }

    /// The position coordinates as host-rendered text.
    pub fn position(&self) -> (position: (&Vec<u8>, &Vec<u8>, &Vec<u8>))
        ensures
            (position.0@, position.1@, position.2@) == self.spec_position(),
    {
        (&self.position_x, &self.position_y, &self.position_z)
    }

    /// The host clock reading for this call, in milliseconds.
    pub fn now_millis(&self) -> (now: u64)
        ensures
            now == self.spec_now_millis(),
    {
        self.now_millis
    }

    /// Request that the host shut down.  One-shot from the host's side, but
    /// safe to call any number of times: every call after the first leaves
    /// the view exactly as it was.
    pub fn request_shutdown(&mut self)
        ensures
            final(self).spec_shutdown_requested(),
            final(self).same_snapshot(*old(self)),
    {
        self.shutdown_requested = true;
    }

    /// Whether shutdown has been requested through this view; the host reads
    /// this after the call returns.
    pub fn shutdown_requested(&self) -> (requested: bool)
        ensures
            requested == self.spec_shutdown_requested(),
    {
        self.shutdown_requested
    }
}

} // verus!
