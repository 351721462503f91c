use vstd::prelude::*;

verus! {

/// What one release does to a latch that is `armed`: whether the cleanup
/// step runs now, and whether the latch is still armed afterwards.
pub open spec fn release_outcome(armed: bool) -> (bool, bool) {
    (armed, false)
}

/// Marks that a submission is in flight. It is armed when a frame is handed
/// out, and the first release disarms it and tells the holder to run the
/// device cleanup; any later release is a no-op.
pub struct CleanupLatch {
    armed: bool,
}

impl View for CleanupLatch {
    type V = bool;

    closed spec fn view(&self) -> bool {
        self.armed
    }
}

impl CleanupLatch {
    /// A latch for a submission that has just been made.
    pub fn armed() -> (l: Self)
        ensures
            l@,
    {
        CleanupLatch { armed: true }
    }

    /// Whether the cleanup step is still owed.
    pub fn is_armed(&self) -> (r: bool)
        ensures
            r == self@,
    {
        self.armed
    }

    /// Releases the latch; the result says whether the caller must run the
    /// cleanup step now.
    pub fn release(&mut self) -> (run: bool)
        ensures
            (run, final(self)@) == release_outcome(old(self)@),
    {
        let run = self.armed;
        self.armed = false;
        run
    }
}

/// Releasing a latch twice runs the cleanup step at most once: exactly once
/// when it was armed, and never on the second release.
pub proof fn lemma_release_idempotent(armed: bool)
    ensures
        release_outcome(armed).0 == armed,
        !release_outcome(release_outcome(armed).1).0,
        !release_outcome(release_outcome(armed).1).1,
{
}

} // verus!
