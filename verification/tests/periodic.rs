use dive_computer::periodic::{PeriodicTask, END_OF_TIME};

#[test]
fn a_task_needs_a_period() {
    assert!(PeriodicTask::new(0, 10).is_none());
    assert!(PeriodicTask::new(1, 10).is_some());
}

#[test]
fn a_task_is_due_from_its_instant_on() {
    let task = PeriodicTask::new(500, 1000).unwrap();
    assert_eq!(task.period(), 500);
    assert_eq!(task.next_due(), 1000);
    assert!(!task.is_due(999));
    assert!(task.is_due(1000));
    assert!(task.is_due(1001));
}

#[test]
fn rearming_moves_by_one_period() {
    let mut task = PeriodicTask::new(500, 1000).unwrap();
    assert_eq!(task.rearm(), 1500);
    assert_eq!(task.next_due(), 1500);
    assert_eq!(task.period(), 500);
}

#[test]
fn periods_do_not_drift() {
    let mut task = PeriodicTask::new(130, 77).unwrap();
    for run in 1..=1000u64 {
        assert_eq!(task.rearm(), 77 + run * 130);
    }
}

#[test]
fn a_late_task_catches_up() {
    let mut task = PeriodicTask::new(100, 0).unwrap();
    // The task first runs at 350: it is re-armed for 100, 200, 300, 400.
    let now = 350;
    let mut runs = 0;
    while task.is_due(now) {
        task.rearm();
        runs += 1;
    }
    assert_eq!(runs, 4);
    assert_eq!(task.next_due(), 400);
}

#[test]
fn rearming_stops_at_the_end_of_time() {
    assert_eq!(END_OF_TIME, u64::MAX);
    let mut task = PeriodicTask::new(100, u64::MAX - 150).unwrap();
    assert_eq!(task.rearm(), u64::MAX - 50);
    assert_eq!(task.rearm(), u64::MAX);
    assert_eq!(task.rearm(), u64::MAX);
    let mut task = PeriodicTask::new(u64::MAX, 1).unwrap();
    assert_eq!(task.rearm(), u64::MAX);
}
