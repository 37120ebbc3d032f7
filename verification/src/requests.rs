//! One-shot capture requests of a renderer host: GPU timing reports and full frame-graph
//! snapshots. Requests coalesce, a capture that is still being read back holds off the next one,
//! and a snapshot capture goes first while ordinary timing waits behind it.
//!
//! The pending readback itself is whatever the caller polls; these states decide when to
//! capture and when a result has been handed out.

use vstd::prelude::*;

verus! {

/// Ordinary GPU timing requests: at most one readback in flight.
pub struct GpuTimingRequestState<R> {
    requested: bool,
    readback: Option<R>,
}

impl<R> GpuTimingRequestState<R> {
    pub closed spec fn spec_requested(&self) -> bool {
        self.requested
    }

    pub closed spec fn spec_pending(&self) -> Option<R> {
        self.readback
    }

    pub fn new() -> (r: Self)
        ensures
            !r.spec_requested(),
            r.spec_pending() is None,
    {
        GpuTimingRequestState { requested: false, readback: None }
    }

    /// Asks for a timing capture; repeated requests coalesce into one.
    pub fn request(&mut self)
        ensures
            final(self).spec_requested(),
            final(self).spec_pending() == old(self).spec_pending(),
    {
        self.requested = true;
    }

    pub fn is_requested(&self) -> (r: bool)
        ensures
            r == self.spec_requested(),
    {
        self.requested
    }

    /// Whether the next frame captures timing: requested, and no earlier result still unread.
    pub fn should_execute(&self) -> (r: bool)
        ensures
            r == (self.spec_requested() && self.spec_pending() is None),
    {
        self.requested && self.readback.is_none()
    }

    /// Records the readback of the capture just executed; the request is consumed.
    pub fn commit(&mut self, readback: R)
        requires
            old(self).spec_requested(),
            old(self).spec_pending() is None,
        ensures
            !final(self).spec_requested(),
            final(self).spec_pending() == Some(readback),
    {
        self.readback = Some(readback);
        self.requested = false;
    }

    /// The readback still being polled, if any.
    pub fn pending_mut(&mut self) -> (r: Option<&mut R>)
        ensures
            old(self).spec_pending() is None ==> r is None && *final(self) == *old(self),
            old(self).spec_pending() matches Some(p) ==> (r matches Some(x) && *x == p
                && final(self).spec_pending() == Some(*final(x))),
            final(self).spec_requested() == old(self).spec_requested(),
    {
        self.readback.as_mut()
    }

    /// Hands out the pending readback once its result has been taken, making room for the next
    /// capture.
    pub fn finish(&mut self) -> (r: Option<R>)
        ensures
            r == old(self).spec_pending(),
            final(self).spec_pending() is None,
            final(self).spec_requested() == old(self).spec_requested(),
    {
        self.readback.take()
    }
}

/// Full frame-graph snapshot requests: at most one capture pending.
pub struct FrameGraphSnapshotRequestState<P> {
    requested: bool,
    pending: Option<P>,
}

impl<P> FrameGraphSnapshotRequestState<P> {
    pub closed spec fn spec_requested(&self) -> bool {
        self.requested
    }

    pub closed spec fn spec_pending(&self) -> Option<P> {
        self.pending
    }

    pub fn new() -> (r: Self)
        ensures
            !r.spec_requested(),
            r.spec_pending() is None,
    {
        FrameGraphSnapshotRequestState { requested: false, pending: None }
    }

    /// Asks for a snapshot; a capture that is still pending absorbs the request.
    pub fn request(&mut self)
        ensures
            final(self).spec_requested() == (old(self).spec_requested() || old(self).spec_pending() is None),
            final(self).spec_pending() == old(self).spec_pending(),
    {
        if self.pending.is_none() {
            self.requested = true;
        }
    }

    pub fn is_requested(&self) -> (r: bool)
        ensures
            r == self.spec_requested(),
    {
        self.requested
    }

    /// Whether the next frame captures a snapshot: requested, nothing pending, and no ordinary
    /// timing readback in flight that would share the timestamp queries.
    pub fn should_execute(&self, ordinary_timing_pending: bool) -> (r: bool)
        ensures
            r == (self.spec_requested() && self.spec_pending() is None && !ordinary_timing_pending),
    {
        self.requested && self.pending.is_none() && !ordinary_timing_pending
    }

    /// Records the capture just executed; the request is consumed.
    pub fn commit(&mut self, pending: P)
        requires
            old(self).spec_requested(),
            old(self).spec_pending() is None,
        ensures
            !final(self).spec_requested(),
            final(self).spec_pending() == Some(pending),
    {
        self.pending = Some(pending);
        self.requested = false;
    }

    /// The capture still being read back, if any.
    pub fn pending_mut(&mut self) -> (r: Option<&mut P>)
        ensures
            old(self).spec_pending() is None ==> r is None && *final(self) == *old(self),
            old(self).spec_pending() matches Some(p) ==> (r matches Some(x) && *x == p
                && final(self).spec_pending() == Some(*final(x))),
            final(self).spec_requested() == old(self).spec_requested(),
    {
        self.pending.as_mut()
    }

    /// Hands out the pending capture once its timing is in.
    pub fn finish(&mut self) -> (r: Option<P>)
        ensures
            r == old(self).spec_pending(),
            final(self).spec_pending() is None,
            final(self).spec_requested() == old(self).spec_requested(),
    {
        self.pending.take()
    }
}

} // verus!
