use vstd::prelude::*;

use crate::error_imap::ClientError;
use crate::ranges::{batch_ranges, spec_ranges, FetchRange, BATCH_SIZE};

verus! {

/// What a whole run achieved.
#[derive(Clone, Copy, Debug, PartialEq, Eq, Structural)]
pub struct RunSummary {
    /// Messages saved by the batches that succeeded.
    pub saved: u64,
    /// Batches that failed.
    pub errored: u64,
}

/// Messages saved over the outcomes (`None` for a failed batch).
pub open spec fn total_saved(outcomes: Seq<Option<u64>>) -> nat
    decreases outcomes.len(),
{
    if outcomes.len() == 0 {
        0
    } else {
        total_saved(outcomes.drop_last()) + match outcomes.last() {
            Some(n) => n as nat,
            None => 0,
        }
    }
}

/// Failed batches among the outcomes.
pub open spec fn failures(outcomes: Seq<Option<u64>>) -> nat
    decreases outcomes.len(),
{
    if outcomes.len() == 0 {
        0
    } else {
        failures(outcomes.drop_last()) + if outcomes.last() is None {
            1nat
        } else {
            0nat
        }
    }
}

/// The largest `u64` at most `n`.
pub open spec fn capped(n: nat) -> u64 {
    if n <= u64::MAX {
        n as u64
    } else {
        u64::MAX
    }
}

/// The summary of a run whose batches ended with `outcomes`.
pub open spec fn summary_of(outcomes: Seq<Option<u64>>) -> RunSummary {
    RunSummary { saved: capped(total_saved(outcomes)), errored: capped(failures(outcomes)) }
}

/// What a batch's result counts for: its saved messages, or a failure.
pub open spec fn outcome_of(r: Result<u64, ClientError>) -> Option<u64> {
    match r {
        Ok(n) => Some(n),
        Err(_) => None,
    }
}

proof fn lemma_remove_failure(outcomes: Seq<Option<u64>>, f: int)
    requires
        0 <= f < outcomes.len(),
        outcomes[f] is None,
    ensures
        failures(outcomes) == failures(outcomes.remove(f)) + 1,
        total_saved(outcomes) == total_saved(outcomes.remove(f)),
    decreases outcomes.len(),
{
    if f == outcomes.len() - 1 {
        assert(outcomes.remove(f) =~= outcomes.drop_last());
    } else {
        let rest = outcomes.drop_last();
        lemma_remove_failure(rest, f);
        assert(outcomes.remove(f).drop_last() =~= rest.remove(f));
        assert(outcomes.remove(f).last() == outcomes.last());
    }
}

proof fn lemma_no_failure(outcomes: Seq<Option<u64>>)
    requires
        forall|i: int| 0 <= i < outcomes.len() ==> #[trigger] outcomes[i] is Some,
    ensures
        failures(outcomes) == 0,
    decreases outcomes.len(),
{
    if outcomes.len() > 0 {
        let rest = outcomes.drop_last();
        assert forall|i: int| 0 <= i < rest.len() implies #[trigger] rest[i] is Some by {
            assert(rest[i] == outcomes[i]);
        }
        lemma_no_failure(rest);
        assert(outcomes[outcomes.len() - 1] is Some);
    }
}

/// One failed batch among successful ones costs exactly that batch: the summary
/// counts one error, and the messages saved by all the other batches.
pub proof fn lemma_single_failure(outcomes: Seq<Option<u64>>, f: int)
    requires
        0 <= f < outcomes.len(),
        outcomes[f] is None,
        forall|i: int| 0 <= i < outcomes.len() && i != f ==> #[trigger] outcomes[i] is Some,
    ensures
        summary_of(outcomes).errored == 1,
        summary_of(outcomes).saved == capped(total_saved(outcomes.remove(f))),
        total_saved(outcomes.remove(f)) <= u64::MAX ==> summary_of(outcomes).saved
            == total_saved(outcomes.remove(f)),
{
    lemma_remove_failure(outcomes, f);
    let rest = outcomes.remove(f);
    assert forall|i: int| 0 <= i < rest.len() implies #[trigger] rest[i] is Some by {
        if i < f {
            assert(rest[i] == outcomes[i]);
        } else {
            assert(rest[i] == outcomes[i + 1]);
        }
    }
    lemma_no_failure(rest);
}

/// The orchestrator as values.
pub struct OrchestratorView {
    /// The batches of the run, in the order they are launched.
    pub ranges: Seq<FetchRange>,
    pub max_concurrent: nat,
    /// Batches launched so far.
    pub launched: nat,
    /// Batches launched and not yet completed.
    pub in_flight: nat,
    /// Outcomes of the completed batches, in the order they completed.
    pub outcomes: Seq<Option<u64>>,
}

/// At most `max_concurrent` batches are in flight, never more batches are
/// launched than there are, and every launched batch is either in flight or
/// completed.
pub open spec fn within_limits(v: OrchestratorView) -> bool {
    &&& 1 <= v.max_concurrent
    &&& v.in_flight <= v.max_concurrent
    &&& v.launched <= v.ranges.len()
    &&& v.outcomes.len() + v.in_flight == v.launched
}

/// Decides which batch starts when, under a limit on concurrent connections, and
/// folds the batches' outcomes into a summary. It performs no work itself: the
/// caller runs each launched batch and reports its result.
pub struct Orchestrator {
    ranges: Vec<FetchRange>,
    max_concurrent: usize,
    progress: Progress,
}

/// The counters of a run, replaced as a whole at each change.
struct Progress {
    launched: usize,
    in_flight: usize,
    saved: u64,
    errored: u64,
    outcomes: Ghost<Seq<Option<u64>>>,
}

impl View for Orchestrator {
    type V = OrchestratorView;

    closed spec fn view(&self) -> OrchestratorView {
        OrchestratorView {
            ranges: self.ranges@,
            max_concurrent: self.max_concurrent as nat,
            launched: self.progress.launched as nat,
            in_flight: self.progress.in_flight as nat,
            outcomes: self.progress.outcomes@,
        }
    }
}

impl Orchestrator {
    /// Never more batches in flight than the limit; every launched batch is in
    /// flight or completed; the totals are those of the completed batches.
    #[verifier::type_invariant]
    closed spec fn wf(self) -> bool {
        let p = self.progress;
        &&& self.max_concurrent >= 1
        &&& p.in_flight <= self.max_concurrent
        &&& p.launched <= self.ranges@.len()
        &&& p.outcomes@.len() + p.in_flight == p.launched
        &&& p.saved == capped(total_saved(p.outcomes@))
        &&& p.errored == capped(failures(p.outcomes@))
    }

    /// A run over messages `1..=total` in batches of `BATCH_SIZE`, with at most
    /// `max_concurrent` batches at a time.
    pub fn new(total: u32, max_concurrent: usize) -> (r: Orchestrator)
        requires
            max_concurrent >= 1,
        ensures
            within_limits(r@),
            r@.ranges == spec_ranges(total as nat, BATCH_SIZE as nat),
            r@.max_concurrent == max_concurrent,
            r@.launched == 0,
            r@.in_flight == 0,
            r@.outcomes == Seq::<Option<u64>>::empty(),
    {
        Orchestrator {
            ranges: batch_ranges(total, BATCH_SIZE),
            max_concurrent,
            progress: Progress {
                launched: 0,
                in_flight: 0,
                saved: 0,
                errored: 0,
                outcomes: Ghost(Seq::empty()),
            },
        }
    }

    /// The next batch to start, if a slot is free and a batch is waiting.
    pub fn next_launch(&mut self) -> (r: Option<FetchRange>)
        ensures
            within_limits(final(self)@),
            final(self)@.ranges == old(self)@.ranges,
            final(self)@.max_concurrent == old(self)@.max_concurrent,
            final(self)@.outcomes == old(self)@.outcomes,
            old(self)@.in_flight < old(self)@.max_concurrent && old(self)@.launched < old(
                self,
            )@.ranges.len() ==> r == Some(old(self)@.ranges[old(self)@.launched as int])
                && final(self)@.launched == old(self)@.launched + 1 && final(self)@.in_flight
                == old(self)@.in_flight + 1,
            !(old(self)@.in_flight < old(self)@.max_concurrent && old(self)@.launched < old(
                self,
            )@.ranges.len()) ==> r is None && final(self)@ == old(self)@,
    {
        proof {
            use_type_invariant(&*self);
        }
        let p = &self.progress;
        if p.in_flight < self.max_concurrent && p.launched < self.ranges.len() {
            let range = self.ranges[p.launched];
            self.progress = Progress {
                launched: p.launched + 1,
                in_flight: p.in_flight + 1,
                saved: p.saved,
                errored: p.errored,
                outcomes: Ghost(p.outcomes@),
            };
            Some(range)
        } else {
            None
        }
    }

    /// Records the result of a batch that finished, freeing its slot. Returns
    /// false, changing nothing, when no batch is in flight.
    pub fn complete(&mut self, result: &Result<u64, ClientError>) -> (r: bool)
        ensures
            within_limits(final(self)@),
            r == (old(self)@.in_flight > 0),
            final(self)@.ranges == old(self)@.ranges,
            final(self)@.max_concurrent == old(self)@.max_concurrent,
            final(self)@.launched == old(self)@.launched,
            r ==> final(self)@.in_flight == old(self)@.in_flight - 1 && final(self)@.outcomes
                == old(self)@.outcomes.push(outcome_of(*result)),
            !r ==> final(self)@ == old(self)@,
    {
        proof {
            use_type_invariant(&*self);
        }
        let p = &self.progress;
        if p.in_flight == 0 {
            return false;
        }
        let ghost outcomes = p.outcomes@.push(outcome_of(*result));
        assert(outcomes.drop_last() =~= p.outcomes@);
        let (saved, errored) = match result {
            Ok(n) => (if p.saved <= u64::MAX - *n { p.saved + *n } else { u64::MAX }, p.errored),
            Err(_) => (p.saved, if p.errored < u64::MAX { p.errored + 1 } else { u64::MAX }),
        };
        self.progress = Progress {
            launched: p.launched,
            in_flight: p.in_flight - 1,
            saved,
            errored,
            outcomes: Ghost(outcomes),
        };
        true
    }

    /// Every batch was launched and has completed.
    pub fn is_finished(&self) -> (r: bool)
        ensures
            r == (self@.launched == self@.ranges.len() && self@.in_flight == 0),
    {
        proof {
            use_type_invariant(self);
        }
        self.progress.launched == self.ranges.len() && self.progress.in_flight == 0
    }

    /// Batches launched and not yet completed.
    pub fn in_flight(&self) -> (r: usize)
        ensures
            r == self@.in_flight,
    {
        self.progress.in_flight
    }

    /// The totals over the batches completed so far.
    pub fn summary(&self) -> (r: RunSummary)
        ensures
            r == summary_of(self@.outcomes),
    {
        proof {
            use_type_invariant(self);
        }
        RunSummary { saved: self.progress.saved, errored: self.progress.errored }
    }
}

} // verus!
