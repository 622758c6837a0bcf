//! Cooperative, request-local control. Cancellation never returns a partially
//! compiled convention state or labels a partially visited belief exhaustive.

use std::sync::atomic::{AtomicBool, Ordering};
use std::sync::Arc;
use std::time::Instant;

use vstd::prelude::*;

verus! {

#[verifier::external_type_specification]
#[verifier::external_body]
pub struct ExInstant(Instant);

/// The current instant. Nothing is promised of the value: it is the
/// machine's clock.
#[verifier::external_body]
fn current_instant() -> Instant {
    Instant::now()
}

/// Whether `now` is at or after `deadline`. Nothing is stated of the
/// result: instants are opaque values of the machine's clock.
#[verifier::external_body]
fn instant_reached(now: &Instant, deadline: &Instant) -> bool {
    *now >= *deadline
}

/// A shared flag that requests cooperative cancellation.
#[derive(Clone, Debug)]
pub struct CancellationToken(Arc<AtomicBool>);

impl Default for CancellationToken {
    fn default() -> Self {
        CancellationToken(Arc::new(AtomicBool::new(false)))
    }
}

impl CancellationToken {
    /// Requests cancellation of every analysis sharing this token.
    pub fn cancel(&self) {
        self.0.store(true, Ordering::Relaxed);
    }

    /// Whether cancellation has been requested. The flag is shared with other
    /// threads, so nothing is known of its value.
    pub fn is_cancelled(&self) -> bool {
        self.0.load(Ordering::Relaxed)
    }
}

/// Why a cooperative analysis stopped.
#[derive(Clone, Copy, Debug, PartialEq, Eq, Structural)]
pub enum AnalysisStopped {
    Cancelled,
    Deadline,
    WorkLimit,
}

impl AnalysisStopped {
    pub open spec fn spec_text(self) -> Seq<char> {
        match self {
            AnalysisStopped::Cancelled => "analysis cancelled"@,
            AnalysisStopped::Deadline => "analysis deadline reached"@,
            AnalysisStopped::WorkLimit => "analysis work limit reached"@,
        }
    }

    /// The human-readable reason.
    pub fn to_string(&self) -> (s: String)
        ensures
            s@ == self.spec_text(),
    {
        match self {
            AnalysisStopped::Cancelled => "analysis cancelled".to_owned(),
            AnalysisStopped::Deadline => "analysis deadline reached".to_owned(),
            AnalysisStopped::WorkLimit => "analysis work limit reached".to_owned(),
        }
    }
}

/// Request-wide budget: a cancellation token, an optional deadline and a
/// limit on work units. A work unit is a compiler invocation, projection
/// step, or world/search node, not elapsed time.
pub struct AnalysisControl {
    cancellation: CancellationToken,
    deadline: Option<Instant>,
    work_limit: u64,
    used: u64,
}

impl AnalysisControl {
    /// The counter never exceeds the limit.
    pub closed spec fn wf(&self) -> bool {
        self.used <= self.work_limit
    }

    pub closed spec fn spec_used(&self) -> u64 {
        self.used
    }

    pub closed spec fn spec_work_limit(&self) -> u64 {
        self.work_limit
    }

    pub closed spec fn has_deadline(&self) -> bool {
        self.deadline is Some
    }

    #[must_use]
    pub fn new(
        cancellation: CancellationToken,
        deadline: Option<Instant>,
        work_limit: u64,
    ) -> (control: Self)
        ensures
            control.wf(),
            control.spec_used() == 0,
            control.spec_work_limit() == work_limit,
            control.has_deadline() == deadline is Some,
    {
        AnalysisControl { cancellation, deadline, work_limit, used: 0 }
    }

    /// Work units consumed so far.
    #[must_use]
    pub fn used(&self) -> (n: u64)
        ensures
            n == self.spec_used(),
    {
        self.used
    }

    /// The decision of one checkpoint, given whether cancellation was
    /// requested and whether the deadline has passed: stop for the first of
    /// cancellation, deadline and exhausted budget, and otherwise consume one
    /// work unit.
    pub fn checkpoint_with(&mut self, cancelled: bool, deadline_passed: bool) -> (r: Result<
        (),
        AnalysisStopped,
    >)
        requires
            old(self).wf(),
        ensures
            final(self).wf(),
            final(self).spec_work_limit() == old(self).spec_work_limit(),
            final(self).has_deadline() == old(self).has_deadline(),
            cancelled ==> r == Err::<(), AnalysisStopped>(AnalysisStopped::Cancelled),
            !cancelled && deadline_passed ==> r == Err::<(), AnalysisStopped>(
                AnalysisStopped::Deadline,
            ),
            !cancelled && !deadline_passed && old(self).spec_used() >= old(self).spec_work_limit()
                ==> r == Err::<(), AnalysisStopped>(AnalysisStopped::WorkLimit),
            !cancelled && !deadline_passed && old(self).spec_used() < old(self).spec_work_limit()
                ==> r is Ok,
            r is Ok ==> final(self).spec_used() == old(self).spec_used() + 1,
            r is Err ==> final(self).spec_used() == old(self).spec_used(),
            checkpoint_step(*old(self), r, *final(self)),
    {
        if cancelled {
            return Err(AnalysisStopped::Cancelled);
        }
        if deadline_passed {
            return Err(AnalysisStopped::Deadline);
        }
        if self.used >= self.work_limit {
            return Err(AnalysisStopped::WorkLimit);
        }
        self.used = self.used + 1;
        Ok(())
    }

    /// Consumes one work unit unless the request was cancelled, its deadline
    /// has passed, or its budget is exhausted. Deadlines are cooperative, not
    /// hard real-time interruption guarantees.
    pub fn checkpoint(&mut self) -> (r: Result<(), AnalysisStopped>)
        requires
            old(self).wf(),
        ensures
            final(self).wf(),
            final(self).spec_work_limit() == old(self).spec_work_limit(),
            r is Ok ==> final(self).spec_used() == old(self).spec_used() + 1 && old(self).spec_used()
                < old(self).spec_work_limit(),
            r is Err ==> final(self).spec_used() == old(self).spec_used(),
            old(self).spec_used() >= old(self).spec_work_limit() ==> r is Err,
            r == Err::<(), AnalysisStopped>(AnalysisStopped::Deadline) ==> old(self).has_deadline(),
            checkpoint_step(*old(self), r, *final(self)),
    {
        let cancelled = self.cancellation.is_cancelled();
        let deadline_passed = if cancelled {
            false
        } else {
            match &self.deadline {
                Some(deadline) => {
                    let now = current_instant();
                    instant_reached(&now, deadline)
                },
                None => false,
            }
        };
        self.checkpoint_with(cancelled, deadline_passed)
    }
}

impl Default for AnalysisControl {
    /// No deadline, a fresh cancellation token and an unlimited budget.
    fn default() -> (control: Self)
        ensures
            control.wf(),
            control.spec_used() == 0,
            control.spec_work_limit() == u64::MAX,
            !control.has_deadline(),
    {
        Self::new(CancellationToken::default(), None, u64::MAX)
    }
}

/// One checkpoint from `before` to `after` with result `r`: a success
/// consumes one work unit, a refusal none, and the limit stays.
pub open spec fn checkpoint_step(
    before: AnalysisControl,
    r: Result<(), AnalysisStopped>,
    after: AnalysisControl,
) -> bool {
    &&& after.wf()
    &&& after.spec_work_limit() == before.spec_work_limit()
    &&& r is Ok ==> after.spec_used() == before.spec_used() + 1
    &&& r is Err ==> after.spec_used() == before.spec_used()
}

/// How many of `results` are successes.
pub open spec fn successes(results: Seq<Result<(), AnalysisStopped>>) -> nat
    decreases results.len(),
{
    if results.len() == 0 {
        0
    } else {
        successes(results.drop_last()) + if results.last() is Ok {
            1nat
        } else {
            0nat
        }
    }
}

/// Over any run of checkpoints, the work counter grows by exactly the number
/// of successful ones and never exceeds the limit; from a fresh control it
/// is the number of successes.
pub proof fn lemma_used_counts_successful_checkpoints(
    states: Seq<AnalysisControl>,
    results: Seq<Result<(), AnalysisStopped>>,
)
    requires
        states.len() == results.len() + 1,
        states[0].wf(),
        forall|i: int|
            0 <= i < results.len() ==> checkpoint_step(states[i], #[trigger] results[i], states[i + 1]),
    ensures
        states.last().spec_used() == states[0].spec_used() + successes(results),
        states.last().spec_used() <= states.last().spec_work_limit(),
        states.last().spec_work_limit() == states[0].spec_work_limit(),
    decreases results.len(),
{
    if results.len() > 0 {
        let n = results.len() - 1;
        let earlier = states.drop_last();
        assert forall|i: int|
            0 <= i < results.drop_last().len() implies checkpoint_step(
            earlier[i],
            #[trigger] results.drop_last()[i],
            earlier[i + 1],
        ) by {
            assert(checkpoint_step(states[i], results[i], states[i + 1]));
        }
        lemma_used_counts_successful_checkpoints(earlier, results.drop_last());
        assert(checkpoint_step(states[n], results[n], states[n + 1]));
    }
}

/// A budget admits exactly as many checkpoints as its work limit: the
/// counter never exceeds the limit, and one more checkpoint at the limit is
/// refused with the budget unchanged.
pub proof fn lemma_work_never_exceeds_limit(control: AnalysisControl)
    requires
        control.wf(),
    ensures
        control.spec_used() <= control.spec_work_limit(),
{
}

} // verus!
