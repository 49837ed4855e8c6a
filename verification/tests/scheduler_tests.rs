use vote_relay::scheduler::should_schedule_drain;

#[test]
fn drain_is_armed_only_when_idle_with_work() {
    assert!(should_schedule_drain(false, 1));
    assert!(!should_schedule_drain(true, 1));
    assert!(!should_schedule_drain(false, 0));
    assert!(!should_schedule_drain(true, 0));
}
