//! Self re-arming periodic tasks.
//!
//! A task holds the absolute instant at which it is next due. Re-arming moves
//! that instant forward by one period, whatever the time at which the task
//! actually ran: a late run shortens the wait for the next one, and the
//! nominal period never drifts.

use vstd::prelude::*;

verus! {

/// Latest instant that the clock can show.
pub const END_OF_TIME: u64 = 0xffff_ffff_ffff_ffff;

/// The mathematical state of a periodic task.
pub struct TaskState {
    /// Ticks between two runs.
    pub period: nat,
    /// Instant of the next run.
    pub next_due: nat,
}

impl TaskState {
    /// A task has a period and is due within the clock's range.
    pub open spec fn valid(self) -> bool {
        self.period > 0 && self.next_due <= END_OF_TIME
    }

    /// Whether the task is due at `now`.
    pub open spec fn is_due(self, now: nat) -> bool {
        now >= self.next_due
    }

    /// The task re-armed for its next run: one period after the instant at
    /// which it was due, stopping at the end of time.
    pub open spec fn rearm(self) -> TaskState {
        TaskState {
            next_due: if self.next_due + self.period > END_OF_TIME {
                END_OF_TIME as nat
            } else {
                self.next_due + self.period
            },
            ..self
        }
    }

    /// The task re-armed `runs` times.
    pub open spec fn rearmed(self, runs: nat) -> TaskState
        decreases runs,
    {
        if runs == 0 {
            self
        } else {
            self.rearmed((runs - 1) as nat).rearm()
        }
    }
}

/// No drift. After any number of runs a task is due a whole number of periods
/// after its first due instant, as long as that instant is within the clock's
/// range.
pub proof fn lemma_no_drift(task: TaskState, runs: nat)
    requires
        task.next_due + runs * task.period <= END_OF_TIME,
    ensures
        task.rearmed(runs) == (TaskState { next_due: task.next_due + runs * task.period, ..task }),
    decreases runs,
{
    if runs > 0 {
        let before = (runs - 1) as nat;
        assert(runs * task.period == before * task.period + task.period) by (nonlinear_arith)
            requires
                runs == before + 1,
        ;
        lemma_no_drift(task, before);
    } else {
        assert(runs * task.period == 0) by (nonlinear_arith)
            requires
                runs == 0,
        ;
    }
}

/// A periodic task.
#[derive(Clone, Copy, Debug)]
pub struct PeriodicTask {
    period: u64,
    next_due: u64,
}

impl View for PeriodicTask {
    type V = TaskState;

    closed spec fn view(&self) -> TaskState {
        TaskState { period: self.period as nat, next_due: self.next_due as nat }
    }
}

impl PeriodicTask {
    /// Holds of every value of the type.
    #[verifier::type_invariant]
    pub open spec fn well_formed(self) -> bool {
        self@.valid()
    }

    /// A task that runs every `period` ticks, first at `first_due`, or
    /// nothing where the period is zero.
    pub fn new(period: u64, first_due: u64) -> (task: Option<Self>)
        ensures
            task is Some <==> period > 0,
            task matches Some(t) ==> t@ == (TaskState {
                period: period as nat,
                next_due: first_due as nat,
            }),
    {
        if period > 0 {
            Some(PeriodicTask { period, next_due: first_due })
        } else {
            None
        }
    }

    /// Ticks between two runs.
    pub fn period(&self) -> (period: u64)
        ensures
            period == self@.period,
            period > 0,
    {
        proof {
            use_type_invariant(self);
        }
        self.period
    }

    /// Instant of the next run.
    pub fn next_due(&self) -> (at: u64)
        ensures
            at == self@.next_due,
    {
        self.next_due
    }

    /// Whether the task is due at `now`.
    pub fn is_due(&self, now: u64) -> (due: bool)
        ensures
            due == self@.is_due(now as nat),
    {
        now >= self.next_due
    }

    /// Re-arms the task for its next run and gives the instant of that run.
    pub fn rearm(&mut self) -> (next_due: u64)
        ensures
            final(self)@ == old(self)@.rearm(),
            final(self)@.valid(),
            next_due == final(self)@.next_due,
    {
        proof {
            use_type_invariant(&*self);
        }
        self.next_due = self.next_due.saturating_add(self.period);
        self.next_due
    }
}

} // verus!
