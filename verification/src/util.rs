use vstd::prelude::*;

verus! {

/// The state behind a waitpoint: whether completion has happened, and
/// whether an awaiter has registered itself to be woken.
pub struct WaitpointInner {
    pub completed: bool,
    pub waker_registered: bool,
}

/// Outcome of polling a waitpoint: either the waitpoint has completed and the
/// awaiter may continue, or it must suspend until someone completes it.
#[derive(PartialEq, Eq, Structural, Clone, Copy, Debug)]
pub enum WaitOutcome {
    Ready,
    Pending,
}

/// A one-shot suspension flag. Created pending; `complete` flips it to done,
/// idempotently; once done, every later poll resolves at once. The runtime
/// around the proxy shares one of these between the producer and the consumer
/// of a mutable event and wakes the registered awaiter when it completes.
pub struct Waitpoint {
    pub inner: WaitpointInner,
}

impl Waitpoint {
    /// A fresh waitpoint: not completed, nobody waiting yet.
    pub fn new() -> (r: Self)
        ensures
            !r.inner.completed,
            !r.inner.waker_registered,
    {
        Waitpoint { inner: WaitpointInner { completed: false, waker_registered: false } }
    }

    /// Mark the waitpoint done. Idempotent: completing an already-completed
    /// waitpoint changes nothing further.
    pub fn complete(&mut self)
        ensures
            final(self).inner.completed,
            final(self).inner.waker_registered == old(self).inner.waker_registered,
    {
        self.inner.completed = true;
    }

    /// One poll step: resolve if completed, otherwise register the awaiter
    /// and suspend. Mirrors the decision an executor-facing future makes.
    pub fn poll(&mut self) -> (r: WaitOutcome)
        ensures
            r == WaitOutcome::Ready <==> old(self).inner.completed,
            final(self).inner.completed == old(self).inner.completed,
            final(self).inner.waker_registered == (old(self).inner.waker_registered
                || !old(self).inner.completed),
    {
        if self.inner.completed {
            WaitOutcome::Ready
        } else {
            self.inner.waker_registered = true;
            WaitOutcome::Pending
        }
    }
}

/// What `complete` does to the state, as a value.
pub open spec fn completed_state(w: WaitpointInner) -> WaitpointInner {
    WaitpointInner { completed: true, waker_registered: w.waker_registered }
}

/// Completion is idempotent, and a completed waitpoint stays completed:
/// however many times `complete` runs, the state is the one the first
/// completion left, so every later poll resolves at once.
pub proof fn lemma_complete_idempotent(w: WaitpointInner)
    ensures
        completed_state(completed_state(w)) == completed_state(w),
        completed_state(w).completed,
{
}

} // verus!
