use assoc_guard::guard::backoff_seconds;
use assoc_guard::guard::GuardMode;
use assoc_guard::guard::GuardState;
use assoc_guard::guard::GuardStatus;

fn target() -> String {
    "VLC.mp4".to_string()
}

#[test]
fn backoff_schedule_is_capped_doubling() {
    assert_eq!(backoff_seconds(0), 0);
    assert_eq!(backoff_seconds(1), 30);
    assert_eq!(backoff_seconds(2), 60);
    assert_eq!(backoff_seconds(3), 120);
    assert_eq!(backoff_seconds(4), 240);
    assert_eq!(backoff_seconds(5), 480);
    assert_eq!(backoff_seconds(6), 480);
    assert_eq!(backoff_seconds(100), 480);
}

#[test]
fn match_emits_ok_and_requests_no_write() {
    let mut st = GuardState::new();
    let (ev, repair) = st.observe(Some("VLC.mp4".to_string()), &target(), false, 0);
    assert!(!repair);
    let ev = ev.unwrap();
    assert_eq!(ev.status, GuardStatus::Okay);
    assert_eq!(ev.effective, Some("VLC.mp4".to_string()));
    assert_eq!(st.failures, 0);
    assert!(!st.manual_only);
}

#[test]
fn identical_cycles_emit_once() {
    let mut st = GuardState::new();
    let (ev1, _) = st.observe(Some("Other.mp4".to_string()), &target(), false, 0);
    assert!(ev1.is_some());
    let (ev2, _) = st.observe(Some("Other.mp4".to_string()), &target(), false, 5);
    assert!(ev2.is_none());
    let (ev3, _) = st.observe(Some("Third.mp4".to_string()), &target(), false, 10);
    assert!(ev3.is_some());
}

#[test]
fn tamper_then_successful_repair_emits_applied() {
    let mut st = GuardState::new();
    let (ev, repair) = st.observe(Some("Other.mp4".to_string()), &target(), false, 0);
    let ev = ev.unwrap();
    assert_eq!(ev.status, GuardStatus::Tampered);
    assert_eq!(ev.mode, Some(GuardMode::AutoRestore));
    assert!(repair);
    let ev2 = st.after_repair(Some("VLC.mp4".to_string()), &target(), 0).unwrap();
    assert_eq!(ev2.status, GuardStatus::Applied);
    assert_eq!(st.failures, 0);
    assert_eq!(st.next_allowed_ms, 0);
    assert!(!st.manual_only);
}

#[test]
fn rejected_repair_turns_manual_only_with_backoff() {
    let mut st = GuardState::new();
    let (_, repair) = st.observe(Some("Other.mp4".to_string()), &target(), false, 1_000);
    assert!(repair);
    let ev = st.after_repair(Some("Other.mp4".to_string()), &target(), 1_000).unwrap();
    assert_eq!(ev.status, GuardStatus::Rejected);
    assert_eq!(ev.backoff_seconds, Some(30));
    assert_eq!(ev.mode, Some(GuardMode::MonitorOnly));
    assert!(st.manual_only);
    assert_eq!(st.failures, 1);
    assert_eq!(st.next_allowed_ms, 31_000);
    // within the window no further repair is attempted, and the drift is
    // reported as monitor-only
    let (ev2, repair2) = st.observe(Some("Other.mp4".to_string()), &target(), false, 2_000);
    assert!(!repair2);
    let ev2 = ev2.unwrap();
    assert_eq!(ev2.status, GuardStatus::Tampered);
    assert_eq!(ev2.mode, Some(GuardMode::MonitorOnly));
    // even past the deadline the rule stays manual-only
    let (_, repair3) = st.observe(Some("Other.mp4".to_string()), &target(), false, 60_000);
    assert!(!repair3);
}

#[test]
fn ok_observation_clears_rejection() {
    let mut st = GuardState::new();
    let (_, _) = st.observe(Some("Other.mp4".to_string()), &target(), false, 0);
    let _ = st.after_repair(Some("Other.mp4".to_string()), &target(), 0);
    assert!(st.manual_only);
    let (ev, repair) = st.observe(Some("VLC.mp4".to_string()), &target(), false, 5_000);
    assert!(!repair);
    assert_eq!(ev.unwrap().status, GuardStatus::Okay);
    assert_eq!(st.failures, 0);
    assert_eq!(st.next_allowed_ms, 0);
    assert!(!st.manual_only);
}

#[test]
fn repeated_rejections_double_the_backoff() {
    let mut st = GuardState::new();
    let _ = st.observe(Some("Other.mp4".to_string()), &target(), false, 0);
    let ev1 = st.after_repair(Some("Other.mp4".to_string()), &target(), 0).unwrap();
    assert_eq!(ev1.backoff_seconds, Some(30));
    // operator intervention would be needed for another auto attempt; the
    // machine still counts a further rejected repair correctly
    let ev2 = st.after_repair(Some("Third.mp4".to_string()), &target(), 0).unwrap();
    assert_eq!(ev2.backoff_seconds, Some(60));
    assert_eq!(st.failures, 2);
}

#[test]
fn monitor_only_reports_but_never_repairs() {
    let mut st = GuardState::new();
    let (ev, repair) = st.observe(Some("Other.mp4".to_string()), &target(), true, 0);
    assert!(!repair);
    let ev = ev.unwrap();
    assert_eq!(ev.status, GuardStatus::Tampered);
    assert_eq!(ev.mode, Some(GuardMode::MonitorOnly));
}

#[test]
fn missing_effective_value_counts_as_drift() {
    let mut st = GuardState::new();
    let (ev, repair) = st.observe(None, &target(), false, 0);
    assert!(repair);
    assert_eq!(ev.unwrap().status, GuardStatus::Tampered);
}
