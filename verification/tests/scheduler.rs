use pomodoro::notification::NotificationSled;
use pomodoro::registry::TaskRegistry;
use pomodoro::scheduler::{remaining_secs, scheduler_step, within_tolerance, SchedulerAction, TaskState};

#[test]
fn remaining_time_is_clamped_at_zero() {
    assert_eq!(remaining_secs(1_000, 400), 600);
    assert_eq!(remaining_secs(1_000, 1_000), 0);
    assert_eq!(remaining_secs(1_000, 5_000), 0);
}

#[test]
fn second_counts_split_into_minutes_and_seconds() {
    assert_eq!(pomodoro::scheduler::split_min_sec(0), (0, 0));
    assert_eq!(pomodoro::scheduler::split_min_sec(59), (0, 59));
    assert_eq!(pomodoro::scheduler::split_min_sec(60), (1, 0));
    assert_eq!(pomodoro::scheduler::split_min_sec(155), (2, 35));
}

#[test]
fn tolerance_window_is_symmetric() {
    let expiry: i64 = 1_000;
    assert!(within_tolerance(expiry, expiry));
    assert!(within_tolerance(expiry, expiry - 10));
    assert!(within_tolerance(expiry, expiry + 10));
    assert!(!within_tolerance(expiry, expiry - 11));
    assert!(!within_tolerance(expiry, expiry + 11));
}

#[test]
fn one_minute_work_run_fires_once_and_frees_its_entry() {
    // A Create{work: 1, break: 0} notification: drive the machine to
    // completion; the work delivery is triggered exactly once, and the
    // registry entry is gone afterwards.
    let created: i64 = 1_000;
    let n = NotificationSled::new(String::new(), 1, 0, created);
    let mut registry: TaskRegistry<u32> = TaskRegistry::new();
    registry.insert(n.get_id(), 7);

    let mut state = TaskState::Waiting;
    let mut now = created;
    let mut work_deliveries = 0;
    let mut steps = 0;
    loop {
        let (next, action) = scheduler_step(state, &n, now);
        state = next;
        match action {
            SchedulerAction::Sleep { seconds } => {
                // The driver would sleep; the clock advances.
                now += seconds as i64;
            }
            SchedulerAction::DeliverWork => work_deliveries += 1,
            SchedulerAction::DeliverBreak => panic!("no break phase was configured"),
            SchedulerAction::Proceed => {}
            SchedulerAction::Finish => {
                registry.remove(n.get_id());
                break;
            }
        }
        steps += 1;
        assert!(steps < 10, "the machine must reach Done");
    }

    assert_eq!(state, TaskState::Done);
    assert_eq!(work_deliveries, 1);
    assert_eq!(now, created + 60);
    assert!(!registry.contains(n.get_id()));
    assert_eq!(registry.len(), 0);
}

#[test]
fn stale_wakeup_skips_the_delivery() {
    // Waking far past the expiry (daemon downtime) must not fire.
    let n = NotificationSled::new(String::new(), 1, 0, 1_000);
    let work_expiry = 1_000 + 60;
    let (state, action) = scheduler_step(TaskState::WorkRunning, &n, work_expiry + 11);
    assert_eq!(state, TaskState::WorkSkipped);
    assert_eq!(action, SchedulerAction::Proceed);
}

#[test]
fn jittered_wakeup_still_fires() {
    let n = NotificationSled::new(String::new(), 1, 0, 1_000);
    let work_expiry = 1_000 + 60;
    let (state, action) = scheduler_step(TaskState::WorkRunning, &n, work_expiry + 9);
    assert_eq!(state, TaskState::WorkFired);
    assert_eq!(action, SchedulerAction::DeliverWork);
}

#[test]
fn zero_work_skips_to_the_break_phase() {
    let n = NotificationSled::new(String::new(), 0, 5, 1_000);
    let (state, action) = scheduler_step(TaskState::Waiting, &n, 1_000);
    assert_eq!(state, TaskState::WorkSkipped);
    assert_eq!(action, SchedulerAction::Proceed);

    let (state, action) = scheduler_step(state, &n, 1_000);
    assert_eq!(state, TaskState::BreakRunning);
    assert_eq!(action, SchedulerAction::Sleep { seconds: 300 });
}

#[test]
fn break_phase_mirrors_work_phase() {
    let n = NotificationSled::new(String::new(), 1, 2, 1_000);
    let break_expiry = 1_000 + 60 + 120;
    let (state, action) = scheduler_step(TaskState::BreakRunning, &n, break_expiry);
    assert_eq!(state, TaskState::BreakFired);
    assert_eq!(action, SchedulerAction::DeliverBreak);

    let (state, action) = scheduler_step(state, &n, break_expiry);
    assert_eq!(state, TaskState::Done);
    assert_eq!(action, SchedulerAction::Finish);
}

#[test]
fn done_is_absorbing() {
    let n = NotificationSled::new(String::new(), 1, 1, 0);
    let (state, action) = scheduler_step(TaskState::Done, &n, 10_000);
    assert_eq!(state, TaskState::Done);
    assert_eq!(action, SchedulerAction::Finish);
}

#[test]
fn waiting_sleeps_the_remaining_work_time() {
    let n = NotificationSled::new(String::new(), 10, 0, 1_000);
    // Fresh spawn at creation: the full ten minutes remain.
    let (state, action) = scheduler_step(TaskState::Waiting, &n, 1_000);
    assert_eq!(state, TaskState::WorkRunning);
    assert_eq!(action, SchedulerAction::Sleep { seconds: 600 });

    // Recovery three minutes in: only the rest remains.
    let (_, action) = scheduler_step(TaskState::Waiting, &n, 1_000 + 180);
    assert_eq!(action, SchedulerAction::Sleep { seconds: 420 });

    // Recovery long after the expiry: the sleep is clamped to zero.
    let (_, action) = scheduler_step(TaskState::Waiting, &n, 1_000_000);
    assert_eq!(action, SchedulerAction::Sleep { seconds: 0 });
}
