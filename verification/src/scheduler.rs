//! The per-notification scheduling state machine.
//!
//! Each notification is driven through two phases: sleep until the
//! work expiry, deliver if the wake-up lands inside the tolerance
//! window, then the same for the break expiry.  The machine decides;
//! the driver around it performs the sleeps and deliveries and hands
//! back the clock reading after each one.  A phase whose wake-up falls
//! outside the window is skipped, so a daemon recovering long after an
//! expiry does not fire stale deliveries.

use vstd::prelude::*;
use crate::notification::{NotificationSled, RecordView};

verus! {

/// Half-width, in seconds, of the symmetric window around a phase
/// expiry inside which a delivery still counts as on time.
pub const TOLERANCE_SECONDS: i64 = 10;

/// The states a notification task moves through, in order.
#[derive(Debug, PartialEq, Eq, Clone, Copy)]
pub enum TaskState {
    Waiting,
    WorkRunning,
    WorkFired,
    WorkSkipped,
    BreakRunning,
    BreakFired,
    BreakSkipped,
    Done,
}

/// What the task driver must do after a step.
#[derive(Debug, PartialEq, Eq, Clone, Copy)]
pub enum SchedulerAction {
    /// Suspend for this many seconds, then step again.
    Sleep { seconds: u64 },
    /// Trigger the work-complete delivery, then step again.
    DeliverWork,
    /// Trigger the break-complete delivery, then step again.
    DeliverBreak,
    /// Step again at once.
    Proceed,
    /// The task is over: drop its registry entry.
    Finish,
}

/// Seconds still to wait until `expires_at`, never negative.
pub open spec fn spec_remaining(expires_at: i64, now: i64) -> int {
    if expires_at > now {
        expires_at - now
    } else {
        0
    }
}

/// Whether `now` lies inside the tolerance window around `expires_at`.
pub open spec fn spec_within_tolerance(expires_at: i64, now: i64) -> bool {
    -(TOLERANCE_SECONDS as int) <= expires_at - now <= TOLERANCE_SECONDS as int
}

/// How far along the state order a state sits.
pub open spec fn rank(s: TaskState) -> int {
    match s {
        TaskState::Waiting => 0,
        TaskState::WorkRunning => 1,
        TaskState::WorkFired => 2,
        TaskState::WorkSkipped => 2,
        TaskState::BreakRunning => 3,
        TaskState::BreakFired => 4,
        TaskState::BreakSkipped => 4,
        TaskState::Done => 5,
    }
}

/// One decision of the machine, given the record and the clock.
pub open spec fn spec_step(s: TaskState, r: RecordView, now: i64) -> (TaskState, SchedulerAction) {
    match s {
        TaskState::Waiting => if r.work_time == 0 {
            (TaskState::WorkSkipped, SchedulerAction::Proceed)
        } else {
            (
                TaskState::WorkRunning,
                SchedulerAction::Sleep { seconds: spec_remaining(r.work_expired_at, now) as u64 },
            )
        },
        TaskState::WorkRunning => if spec_within_tolerance(r.work_expired_at, now) {
            (TaskState::WorkFired, SchedulerAction::DeliverWork)
        } else {
            (TaskState::WorkSkipped, SchedulerAction::Proceed)
        },
        TaskState::WorkFired | TaskState::WorkSkipped => if r.break_time == 0 {
            (TaskState::BreakSkipped, SchedulerAction::Proceed)
        } else {
            (
                TaskState::BreakRunning,
                SchedulerAction::Sleep { seconds: spec_remaining(r.break_expired_at, now) as u64 },
            )
        },
        TaskState::BreakRunning => if spec_within_tolerance(r.break_expired_at, now) {
            (TaskState::BreakFired, SchedulerAction::DeliverBreak)
        } else {
            (TaskState::BreakSkipped, SchedulerAction::Proceed)
        },
        TaskState::BreakFired | TaskState::BreakSkipped => (TaskState::Done, SchedulerAction::Finish),
        TaskState::Done => (TaskState::Done, SchedulerAction::Finish),
    }
}

/// Seconds still to wait until `expires_at`, clamped at zero so that
/// recovery long after an expiry never sleeps a negative time.
pub fn remaining_secs(expires_at: i64, now: i64) -> (r: u64)
    ensures
        r == spec_remaining(expires_at, now),
{
    let diff: i128 = (expires_at as i128) - (now as i128);
    if diff <= 0 {
        0
    } else {
        diff as u64
    }
}

/// A second count split for display: whole minutes and the seconds
/// left over.
pub fn split_min_sec(total_secs: u64) -> (r: (u64, u64))
    ensures
        r.0 == total_secs / 60,
        r.1 == total_secs % 60,
        r.1 < 60,
        r.0 * 60 + r.1 == total_secs,
{
    proof {
        assert((total_secs / 60) * 60 + total_secs % 60 == total_secs) by (nonlinear_arith);
        assert(total_secs % 60 < 60) by (nonlinear_arith);
        assert((total_secs / 60) * 60 <= total_secs) by (nonlinear_arith);
    }
    (total_secs / 60, total_secs % 60)
}

/// Whether a wake-up at `now` is close enough to `expires_at` for the
/// delivery to still count.
pub fn within_tolerance(expires_at: i64, now: i64) -> (r: bool)
    ensures
        r == spec_within_tolerance(expires_at, now),
{
    let diff: i128 = (expires_at as i128) - (now as i128);
    -(TOLERANCE_SECONDS as i128) <= diff && diff <= TOLERANCE_SECONDS as i128
}

/// Decide the next state and action for a notification task.
pub fn scheduler_step(state: TaskState, n: &NotificationSled, now: i64) -> (r: (
    TaskState,
    SchedulerAction,
))
    ensures
        r == spec_step(state, n@, now),
        state != TaskState::Done ==> rank(r.0) > rank(state),
        r.1 == SchedulerAction::DeliverWork <==> (state == TaskState::WorkRunning
            && spec_within_tolerance(n@.work_expired_at, now)),
        r.1 == SchedulerAction::DeliverBreak <==> (state == TaskState::BreakRunning
            && spec_within_tolerance(n@.break_expired_at, now)),
{
    match state {
        TaskState::Waiting => {
            if n.work_time == 0 {
                (TaskState::WorkSkipped, SchedulerAction::Proceed)
            } else {
                let seconds = remaining_secs(n.work_expired_at, now);
                (TaskState::WorkRunning, SchedulerAction::Sleep { seconds })
            }
        },
        TaskState::WorkRunning => {
            if within_tolerance(n.work_expired_at, now) {
                (TaskState::WorkFired, SchedulerAction::DeliverWork)
            } else {
                (TaskState::WorkSkipped, SchedulerAction::Proceed)
            }
        },
        TaskState::WorkFired | TaskState::WorkSkipped => {
            if n.break_time == 0 {
                (TaskState::BreakSkipped, SchedulerAction::Proceed)
            } else {
                let seconds = remaining_secs(n.break_expired_at, now);
                (TaskState::BreakRunning, SchedulerAction::Sleep { seconds })
            }
        },
        TaskState::BreakRunning => {
            if within_tolerance(n.break_expired_at, now) {
                (TaskState::BreakFired, SchedulerAction::DeliverBreak)
            } else {
                (TaskState::BreakSkipped, SchedulerAction::Proceed)
            }
        },
        TaskState::BreakFired | TaskState::BreakSkipped => (TaskState::Done, SchedulerAction::Finish),
        TaskState::Done => (TaskState::Done, SchedulerAction::Finish),
    }
}

/// A run of the machine: `states` visited in order, one action and one
/// clock reading per step.
pub open spec fn is_run(
    states: Seq<TaskState>,
    actions: Seq<SchedulerAction>,
    r: RecordView,
    times: Seq<i64>,
) -> bool {
    &&& states.len() == actions.len() + 1
    &&& times.len() == actions.len()
    &&& forall|i: int|
        0 <= i < actions.len() ==> spec_step(#[trigger] states[i], r, times[i]) == (
            states[i + 1],
            actions[i],
        )
}

/// Along a run, the state order never goes backwards.
proof fn lemma_rank_monotone(
    states: Seq<TaskState>,
    actions: Seq<SchedulerAction>,
    r: RecordView,
    times: Seq<i64>,
    i: int,
    j: int,
)
    requires
        is_run(states, actions, r, times),
        0 <= i <= j < states.len(),
    ensures
        rank(states[j]) >= rank(states[i]),
    decreases j - i,
{
    if i < j {
        lemma_rank_monotone(states, actions, r, times, i, j - 1);
        assert(spec_step(states[j - 1], r, times[j - 1]) == (states[j], actions[j - 1]));
    }
}

/// In any run of the machine, the work-complete delivery is triggered
/// at most once; likewise the break-complete delivery.
pub proof fn lemma_delivery_at_most_once(
    states: Seq<TaskState>,
    actions: Seq<SchedulerAction>,
    r: RecordView,
    times: Seq<i64>,
)
    requires
        is_run(states, actions, r, times),
    ensures
        forall|i: int, j: int|
            0 <= i < j < actions.len() ==> !((#[trigger] actions[i]) == SchedulerAction::DeliverWork
                && (#[trigger] actions[j]) == SchedulerAction::DeliverWork),
        forall|i: int, j: int|
            0 <= i < j < actions.len() ==> !((#[trigger] actions[i])
                == SchedulerAction::DeliverBreak && (#[trigger] actions[j])
                == SchedulerAction::DeliverBreak),
{
    assert forall|i: int, j: int|
        0 <= i < j < actions.len() implies !((#[trigger] actions[i])
        == SchedulerAction::DeliverWork && (#[trigger] actions[j])
        == SchedulerAction::DeliverWork) by {
        if actions[i] == SchedulerAction::DeliverWork && actions[j]
            == SchedulerAction::DeliverWork {
            assert(spec_step(states[i], r, times[i]) == (states[i + 1], actions[i]));
            assert(spec_step(states[j], r, times[j]) == (states[j + 1], actions[j]));
            assert(states[i] == TaskState::WorkRunning && states[i + 1] == TaskState::WorkFired);
            assert(states[j] == TaskState::WorkRunning);
            lemma_rank_monotone(states, actions, r, times, i + 1, j);
        }
    }
    assert forall|i: int, j: int|
        0 <= i < j < actions.len() implies !((#[trigger] actions[i])
        == SchedulerAction::DeliverBreak && (#[trigger] actions[j])
        == SchedulerAction::DeliverBreak) by {
        if actions[i] == SchedulerAction::DeliverBreak && actions[j]
            == SchedulerAction::DeliverBreak {
            assert(spec_step(states[i], r, times[i]) == (states[i + 1], actions[i]));
            assert(spec_step(states[j], r, times[j]) == (states[j + 1], actions[j]));
            assert(states[i] == TaskState::BreakRunning && states[i + 1] == TaskState::BreakFired);
            assert(states[j] == TaskState::BreakRunning);
            lemma_rank_monotone(states, actions, r, times, i + 1, j);
        }
    }
}

/// Every run reaches `Done` after at most five steps and then stays
/// there, so a task always ends and frees its registry entry.
pub proof fn lemma_run_terminates(
    states: Seq<TaskState>,
    actions: Seq<SchedulerAction>,
    r: RecordView,
    times: Seq<i64>,
)
    requires
        is_run(states, actions, r, times),
        states.len() > 0,
        states[0] == TaskState::Waiting,
        states.len() >= 6,
    ensures
        forall|i: int| 5 <= i < states.len() ==> #[trigger] states[i] == TaskState::Done,
{
    assert forall|i: int| 5 <= i < states.len() implies #[trigger] states[i] == TaskState::Done by {
        lemma_reaches_done(states, actions, r, times, i);
    }
}

proof fn lemma_reaches_done(
    states: Seq<TaskState>,
    actions: Seq<SchedulerAction>,
    r: RecordView,
    times: Seq<i64>,
    i: int,
)
    requires
        is_run(states, actions, r, times),
        states.len() > 0,
        states[0] == TaskState::Waiting,
        0 <= i < states.len(),
    ensures
        rank(states[i]) >= i || states[i] == TaskState::Done,
    decreases i,
{
    if i > 0 {
        lemma_reaches_done(states, actions, r, times, i - 1);
        assert(spec_step(states[i - 1], r, times[i - 1]) == (states[i], actions[i - 1]));
    }
}

} // verus!
