//! The bounded-concurrency scheduler: admission with backpressure, a
//! cooperative cancellation flag, and first-error bookkeeping for fail-fast
//! runs. The traversal loop feeds it events; it never performs work itself.

use vstd::prelude::*;

verus! {

/// The default concurrency cap: how many hashing tasks may be in flight at
/// once unless configured otherwise.
pub const CONCURRENCY_LIMIT: usize = 10;

/// Why a hashing task failed. The taxonomy of fatal task failures: an I/O
/// failure on the file, a persistence failure, or an unexpected crash of
/// the task itself.
#[derive(Clone, Copy, Debug, PartialEq, Eq, Structural)]
pub enum TaskError {
    Io,
    Persistence,
    Crash,
}

/// The terminal error of a run that did not fully succeed.
#[derive(Clone, Copy, Debug, PartialEq, Eq, Structural)]
pub enum RunError {
    /// A task failed; the run was cancelled and this was the first error.
    Cancelled(TaskError),
    /// The run was stopped by an explicit request, with no task failure.
    Stopped,
}

/// The answer to asking for admission of one more hashing task.
#[derive(Clone, Copy, Debug, PartialEq, Eq, Structural)]
pub enum AdmitOutcome {
    /// Admitted: one more task is now in flight.
    Dispatched,
    /// The cancellation flag was observed set: no new work is admitted.
    Draining,
    /// The concurrency cap is reached: wait for a completion first.
    AtCapacity,
}

/// Per-run scheduler state: RUNNING until the flag is set, then draining,
/// terminated once every in-flight task has completed.
pub struct Scheduler {
    limit: usize,
    in_flight: usize,
    cancelled: bool,
    first_error: Option<TaskError>,
}

impl Scheduler {
    /// The concurrency cap K.
    pub closed spec fn limit(&self) -> usize {
        self.limit
    }

    /// How many admitted tasks have not yet reported completion.
    pub closed spec fn in_flight(&self) -> usize {
        self.in_flight
    }

    /// The cancellation flag: transitions only false to true.
    pub closed spec fn is_cancelled(&self) -> bool {
        self.cancelled
    }

    /// The first task error observed, if any.
    pub closed spec fn first_error(&self) -> Option<TaskError> {
        self.first_error
    }

    /// Well-formed: the cap is at least 1, no more than the cap is ever in
    /// flight, and a recorded error implies the flag is set.
    pub open spec fn wf(&self) -> bool {
        &&& self.limit() >= 1
        &&& self.in_flight() <= self.limit()
        &&& self.first_error() is Some ==> self.is_cancelled()
    }

    /// Whether the next admission request would dispatch.
    pub open spec fn spec_can_admit(&self) -> bool {
        !self.is_cancelled() && self.in_flight() < self.limit()
    }

    /// Read the cancellation flag, as the walk does before admitting a file.
    pub fn cancelled(&self) -> (b: bool)
        ensures
            b == self.is_cancelled(),
    {
        self.cancelled
    }

    pub fn new(limit: usize) -> (s: Scheduler)
        requires
            limit >= 1,
        ensures
            s.wf(),
            s.limit() == limit,
            s.in_flight() == 0,
            !s.is_cancelled(),
            s.first_error() is None,
    {
        Scheduler { limit, in_flight: 0, cancelled: false, first_error: None }
    }

    /// Ask to admit one more hashing task. Checks the cancellation flag
    /// before admitting; at the cap, the caller must first complete a task
    /// (backpressure); otherwise exactly one more task is in flight.
    pub fn try_admit(&mut self) -> (r: AdmitOutcome)
        requires
            old(self).wf(),
        ensures
            final(self).wf(),
            final(self).limit() == old(self).limit(),
            final(self).is_cancelled() == old(self).is_cancelled(),
            final(self).first_error() == old(self).first_error(),
            old(self).is_cancelled() ==> r == AdmitOutcome::Draining && final(self).in_flight()
                == old(self).in_flight(),
            !old(self).is_cancelled() && old(self).in_flight() == old(self).limit() ==> r
                == AdmitOutcome::AtCapacity && final(self).in_flight() == old(self).in_flight(),
            old(self).spec_can_admit() ==> r == AdmitOutcome::Dispatched && final(self).in_flight()
                == old(self).in_flight() + 1,
    {
        if self.cancelled {
            AdmitOutcome::Draining
        } else if self.in_flight == self.limit {
            AdmitOutcome::AtCapacity
        } else {
            self.in_flight = self.in_flight + 1;
            AdmitOutcome::Dispatched
        }
    }

    /// One admitted task completed, successfully or with an error. A first
    /// error sets the cancellation flag (idempotently) and is recorded as
    /// the run's terminal error; later errors never displace it.
    pub fn task_completed(&mut self, outcome: Option<TaskError>)
        requires
            old(self).wf(),
            old(self).in_flight() >= 1,
        ensures
            final(self).wf(),
            final(self).limit() == old(self).limit(),
            final(self).in_flight() == old(self).in_flight() - 1,
            outcome is None ==> final(self).is_cancelled() == old(self).is_cancelled(),
            outcome is None ==> final(self).first_error() == old(self).first_error(),
            outcome is Some ==> final(self).is_cancelled(),
            outcome is Some && old(self).first_error() is None ==> final(self).first_error()
                == outcome,
            old(self).first_error() is Some ==> final(self).first_error() == old(self).first_error(),
    {
        self.in_flight = self.in_flight - 1;
        match outcome {
            Option::None => {},
            Option::Some(e) => {
                self.cancelled = true;
                if self.first_error.is_none() {
                    self.first_error = Some(e);
                }
            },
        }
    }

    /// Request an explicit stop: sets the cancellation flag, idempotently,
    /// and changes nothing else.
    pub fn request_stop(&mut self)
        requires
            old(self).wf(),
        ensures
            final(self).wf(),
            final(self).limit() == old(self).limit(),
            final(self).in_flight() == old(self).in_flight(),
            final(self).is_cancelled(),
            final(self).first_error() == old(self).first_error(),
    {
        self.cancelled = true;
    }

    /// The run's overall result, once every task has drained: success only
    /// if the flag was never set; otherwise the first observed error, marked
    /// as cancellation, or a bare stop if no task failed.
    pub fn run_result(&self) -> (r: Result<(), RunError>)
        requires
            self.wf(),
            self.in_flight() == 0,
        ensures
            self.first_error() matches Some(e) ==> r == Result::<(), RunError>::Err(
                RunError::Cancelled(e),
            ),
            self.first_error() is None && self.is_cancelled() ==> r == Result::<(), RunError>::Err(
                RunError::Stopped,
            ),
            !self.is_cancelled() ==> r == Result::<(), RunError>::Ok(()),
    {
        match self.first_error {
            Option::Some(e) => Err(RunError::Cancelled(e)),
            Option::None => {
                if self.cancelled {
                    Err(RunError::Stopped)
                } else {
                    Ok(())
                }
            },
        }
    }
}

/// Backpressure bound: a well-formed scheduler never has more than its cap
/// in flight, whatever sequence of admissions and completions produced it.
pub proof fn lemma_backpressure_bound(s: Scheduler)
    requires
        s.wf(),
    ensures
        s.in_flight() <= s.limit(),
{
}

/// Fail-fast: once the cancellation flag is set, admission never dispatches,
/// so no file walked after the flag was observed becomes a new task.
pub proof fn lemma_no_dispatch_after_cancel(s: Scheduler)
    requires
        s.wf(),
        s.is_cancelled(),
    ensures
        !s.spec_can_admit(),
{
}

} // verus!
