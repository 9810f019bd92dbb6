use stream_state::supervisor::{
    ReconnectionSupervisor, SupervisorAction, SupervisorState,
};

fn streaming_supervisor() -> ReconnectionSupervisor {
    let mut sup = ReconnectionSupervisor::new(100, 3, 30_000, 0);
    assert!(matches!(sup.on_replay_result(true), SupervisorAction::Idle));
    assert_eq!(sup.state, SupervisorState::Subscribed);
    assert!(matches!(sup.on_event(1_000), SupervisorAction::Idle));
    assert_eq!(sup.state, SupervisorState::Streaming);
    sup
}

#[test]
fn liveness_timeout_triggers_exactly_one_replay() {
    let mut sup = streaming_supervisor();
    // events keep the session alive
    sup.on_event(10_000);
    assert!(matches!(sup.check_liveness(20_000), SupervisorAction::Idle));
    assert_eq!(sup.state, SupervisorState::Streaming);
    // no event for the configured window: reconnect
    let mut replays = 0;
    let a = sup.check_liveness(40_001);
    assert_eq!(sup.state, SupervisorState::Reconnecting);
    match a {
        SupervisorAction::BeginBackoff { delay_ms } => assert_eq!(delay_ms, 100),
        SupervisorAction::Replay => replays += 1,
        SupervisorAction::Idle => panic!("timeout must not be ignored"),
    }
    // the backoff elapses: the one replay order
    let a = sup.on_backoff_elapsed();
    assert_eq!(sup.state, SupervisorState::Connecting);
    if matches!(a, SupervisorAction::Replay) {
        replays += 1;
    }
    assert_eq!(replays, 1);
}

#[test]
fn disconnect_signal_starts_backoff() {
    let mut sup = streaming_supervisor();
    let a = sup.on_disconnect();
    assert_eq!(sup.state, SupervisorState::Reconnecting);
    assert!(matches!(a, SupervisorAction::BeginBackoff { delay_ms: 100 }));
}

#[test]
fn backoff_is_linear_with_a_cap() {
    let mut sup = ReconnectionSupervisor::new(100, 3, 30_000, 0);
    let mut delays = Vec::new();
    for _ in 0..5 {
        match sup.on_replay_result(false) {
            SupervisorAction::BeginBackoff { delay_ms } => delays.push(delay_ms),
            _ => panic!("a failed replay must back off"),
        }
        assert_eq!(sup.state, SupervisorState::Connecting);
        // the backoff elapses and the replay is retried
        assert!(matches!(sup.on_backoff_elapsed(), SupervisorAction::Replay));
    }
    assert_eq!(delays, vec![100, 200, 300, 300, 300]);
}

#[test]
fn successful_replay_resets_attempts() {
    let mut sup = ReconnectionSupervisor::new(100, 3, 30_000, 0);
    sup.on_replay_result(false);
    sup.on_replay_result(false);
    assert_eq!(sup.attempts, 2);
    sup.on_replay_result(true);
    assert_eq!(sup.state, SupervisorState::Subscribed);
    assert_eq!(sup.attempts, 0);
}

#[test]
fn events_are_ignored_outside_streaming_states() {
    let mut sup = ReconnectionSupervisor::new(100, 3, 30_000, 0);
    assert!(matches!(sup.on_event(5), SupervisorAction::Idle));
    assert_eq!(sup.state, SupervisorState::Connecting);
    // a liveness check outside Streaming does nothing
    assert!(matches!(sup.check_liveness(1_000_000), SupervisorAction::Idle));
    assert_eq!(sup.state, SupervisorState::Connecting);
    // a disconnect outside Streaming does nothing
    assert!(matches!(sup.on_disconnect(), SupervisorAction::Idle));
    assert_eq!(sup.state, SupervisorState::Connecting);
}

#[test]
fn attempt_counter_saturates() {
    let mut sup = ReconnectionSupervisor::new(7, u64::MAX, 30_000, 0);
    sup.attempts = u64::MAX;
    match sup.on_replay_result(false) {
        SupervisorAction::BeginBackoff { delay_ms } => assert_eq!(delay_ms, u64::MAX),
        _ => panic!("a failed replay must back off"),
    }
    assert_eq!(sup.attempts, u64::MAX);
}

#[test]
fn reconnect_cycle_returns_to_streaming() {
    let mut sup = streaming_supervisor();
    sup.on_disconnect();
    sup.on_backoff_elapsed();
    assert_eq!(sup.state, SupervisorState::Connecting);
    sup.on_replay_result(true);
    assert_eq!(sup.state, SupervisorState::Subscribed);
    sup.on_event(50_000);
    assert_eq!(sup.state, SupervisorState::Streaming);
    assert_eq!(sup.attempts, 0);
}
