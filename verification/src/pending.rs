//! Pending-sync accumulator: the batched change-set produced while an
//! event is processed, drained in one step by the external apply loop.
//!
//! `containers_to_redraw` has set semantics: enqueuing a container that
//! is already recorded is a no-op beyond the first enqueue.

use vstd::prelude::*;

verus! {

/// What `enqueue` does to the recorded redraw sequence.
pub open spec fn enqueue_spec(s: Seq<usize>, id: usize) -> Seq<usize> {
    if s.contains(id) {
        s
    } else {
        s.push(id)
    }
}

/// The batched change-set awaiting application to the live desktop.
#[derive(Debug)]
pub struct PendingSync {
    /// Whether the focused container changed during event processing.
    pub focus_change: bool,
    /// The containers whose geometry or order must be pushed to the
    /// desktop; each container appears at most once.
    pub containers_to_redraw: Vec<usize>,
}

impl PendingSync {
    /// The redraw sequence never records a container twice.
    pub open spec fn inv(self) -> bool {
        self.containers_to_redraw@.no_duplicates()
    }

    /// An empty accumulator: no focus change, nothing to redraw.
    pub fn new() -> (r: PendingSync)
        ensures
            r.inv(),
            !r.focus_change,
            r.containers_to_redraw@ == Seq::<usize>::empty(),
    {
        PendingSync { focus_change: false, containers_to_redraw: Vec::new() }
    }

    /// Whether `id` is already recorded for redraw.
    pub fn contains(&self, id: usize) -> (r: bool)
        ensures
            r == self.containers_to_redraw@.contains(id),
    {
        let n = self.containers_to_redraw.len();
        let mut i: usize = 0;
        while i < n
            invariant
                n == self.containers_to_redraw@.len(),
                i <= n,
                forall|j: int| 0 <= j < i ==> self.containers_to_redraw@[j] != id,
            decreases n - i,
        {
            if self.containers_to_redraw[i] == id {
                return true;
            }
            i += 1;
        }
        false
    }

    /// Records `id` for redraw; recording an already-recorded container
    /// changes nothing.
    pub fn enqueue(&mut self, id: usize)
        requires
            old(self).inv(),
        ensures
            final(self).inv(),
            final(self).focus_change == old(self).focus_change,
            final(self).containers_to_redraw@ == enqueue_spec(
                old(self).containers_to_redraw@,
                id,
            ),
            final(self).containers_to_redraw@.contains(id),
    {
        if !self.contains(id) {
            self.containers_to_redraw.push(id);
            assert(self.containers_to_redraw@.last() == id);
        }
    }

    /// Hands the whole accumulated change-set out and clears the
    /// accumulator in the same step; nothing is ever partially cleared.
    pub fn drain(&mut self) -> (r: (bool, Vec<usize>))
        requires
            old(self).inv(),
        ensures
            final(self).inv(),
            r.0 == old(self).focus_change,
            r.1@ == old(self).containers_to_redraw@,
            !final(self).focus_change,
            final(self).containers_to_redraw@ == Seq::<usize>::empty(),
    {
        let focus_change = self.focus_change;
        let mut drained: Vec<usize> = Vec::new();
        core::mem::swap(&mut drained, &mut self.containers_to_redraw);
        self.focus_change = false;
        (focus_change, drained)
    }
}

/// Law: redraw requests are deduplicated. Enqueuing `id` leaves exactly
/// one entry for it, and enqueuing it a second time changes nothing.
pub proof fn lemma_redraw_dedup(s: Seq<usize>, id: usize)
    requires
        s.no_duplicates(),
    ensures
        enqueue_spec(s, id).no_duplicates(),
        enqueue_spec(s, id).contains(id),
        enqueue_spec(enqueue_spec(s, id), id) == enqueue_spec(s, id),
{
    if !s.contains(id) {
        assert(enqueue_spec(s, id).last() == id);
    }
}

} // verus!
