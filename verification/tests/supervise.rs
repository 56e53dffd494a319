use wurstminebot::supervisor::{
    after_progress, on_task_crash, Backoff, CrashReport, TaskKind, TaskState, MIN_WAIT_SECS,
    RESET_AFTER_SECS,
};

#[test]
fn quick_crashes_double_the_wait() {
    let mut backoff = Backoff::new();
    assert_eq!(backoff.last_wait(), 0);
    let waits: Vec<Option<u64>> = [0u64, 1, 2, 3].iter().map(|_| backoff.on_crash(1).retry_after).collect();
    assert_eq!(waits, vec![Some(1), Some(2), Some(4), Some(8)]);
    assert_eq!(backoff.last_wait(), 8);
}

#[test]
fn first_crash_is_silent_and_later_ones_are_not() {
    let mut backoff = Backoff::new();
    assert_eq!(backoff.on_crash(0), CrashReport { notify: false, retry_after: Some(1) });
    assert_eq!(backoff.on_crash(3599), CrashReport { notify: true, retry_after: Some(2) });
    assert_eq!(backoff.on_crash(86399), CrashReport { notify: true, retry_after: Some(4) });
}

#[test]
fn quiet_day_resets_the_wait() {
    let mut backoff = Backoff::new();
    for _ in 0..5 {
        backoff.on_crash(10);
    }
    assert_eq!(backoff.last_wait(), 16);
    assert_eq!(backoff.on_crash(RESET_AFTER_SECS), CrashReport { notify: false, retry_after: Some(MIN_WAIT_SECS) });
    assert_eq!(backoff.on_crash(RESET_AFTER_SECS - 1).retry_after, Some(2));
    assert_eq!(backoff.on_crash(u64::MAX).retry_after, Some(1));
}

#[test]
fn wait_stops_at_the_longest() {
    let mut backoff = Backoff::new();
    let mut last = 0;
    for _ in 0..70 {
        last = backoff.on_crash(0).retry_after.unwrap();
    }
    assert_eq!(last, u64::MAX);
    assert_eq!(backoff.on_crash(0).retry_after, Some(u64::MAX));
}

#[test]
fn log_relay_is_not_started_again() {
    let mut backoff = Backoff::new();
    let (report, state) = on_task_crash(TaskKind::LogRelay, &mut backoff, 5);
    assert_eq!(report, CrashReport { notify: true, retry_after: None });
    assert_eq!(state, TaskState::Failed);
    assert_eq!(backoff.last_wait(), 0);
    assert_eq!(after_progress(state), TaskState::Failed);
}

#[test]
fn bridge_goes_through_backoff() {
    let mut backoff = Backoff::new();
    let (report, state) = on_task_crash(TaskKind::StreamBridge, &mut backoff, 5);
    assert_eq!(report, CrashReport { notify: false, retry_after: Some(1) });
    assert_eq!(state, TaskState::Backoff(1));
    let (report, state) = on_task_crash(TaskKind::StreamBridge, &mut backoff, 5);
    assert_eq!(report, CrashReport { notify: true, retry_after: Some(2) });
    assert_eq!(state, TaskState::Backoff(2));
    assert_eq!(after_progress(state), TaskState::Starting);
    assert_eq!(after_progress(TaskState::Starting), TaskState::Running);
    assert_eq!(after_progress(TaskState::Running), TaskState::Running);
}
