use private_search_engines::breaker::{Breaker, EngineState, COOLDOWN_MILLIS, PENALTY_MILLIS};

#[test]
fn penalty_and_cooldown_lengths() {
    assert_eq!(PENALTY_MILLIS, 60 * 60 * 1000);
    assert_eq!(COOLDOWN_MILLIS, 2 * 1000);
}

#[test]
fn new_breaker_is_available() {
    let mut breaker = Breaker::new();
    assert_eq!(breaker, Breaker { state: EngineState::Healthy, cooldown_until: None });
    assert!(breaker.is_available_at(0));
    assert!(breaker.is_available_at(i64::MIN));
    assert_eq!(breaker, Breaker::new());
}

#[test]
fn timeout_closes_the_engine_until_the_penalty_ends() {
    let t0 = 1_700_000_000_000;
    let mut breaker = Breaker::new();
    breaker.record_timeout(t0);
    assert_eq!(breaker.state, EngineState::TimedOut { available_at: t0 + 3_600_000 });
    assert_eq!(breaker.cooldown_until, None);
    assert!(!breaker.is_available_at(t0));
    assert!(!breaker.is_available_at(t0 + 1));
    assert!(!breaker.is_available_at(t0 + 3_599_999));
    assert_eq!(breaker.state, EngineState::TimedOut { available_at: t0 + 3_600_000 });
    assert!(breaker.is_available_at(t0 + 3_600_000));
    assert_eq!(breaker.state, EngineState::Healthy);
    assert!(breaker.is_available_at(t0));
}

#[test]
fn completed_request_arms_the_cooldown() {
    let t0 = 5_000;
    let mut breaker = Breaker::new();
    breaker.record_completion(t0);
    assert_eq!(breaker.state, EngineState::Healthy);
    assert_eq!(breaker.cooldown_until, Some(7_000));
    assert!(!breaker.is_available_at(t0));
    assert!(!breaker.is_available_at(6_999));
    assert!(breaker.is_available_at(7_000));
    assert_eq!(breaker.cooldown_until, None);
}

#[test]
fn cooldown_is_armed_anew_by_each_request() {
    let mut breaker = Breaker::new();
    breaker.record_completion(1_000);
    breaker.record_completion(2_500);
    assert_eq!(breaker.cooldown_until, Some(4_500));
    assert!(!breaker.is_available_at(3_000));
    assert!(breaker.is_available_at(4_500));
}

#[test]
fn cooldown_and_penalty_run_side_by_side() {
    let mut breaker = Breaker::new();
    breaker.record_completion(1_000);
    breaker.record_timeout(1_500);
    assert_eq!(breaker.cooldown_until, Some(3_000));
    assert_eq!(breaker.state, EngineState::TimedOut { available_at: 3_601_500 });
    assert!(!breaker.is_available_at(3_000));
    assert_eq!(breaker.cooldown_until, None);
    assert_eq!(breaker.state, EngineState::TimedOut { available_at: 3_601_500 });
    assert!(breaker.is_available_at(3_601_500));

    let mut other = Breaker::new();
    other.record_timeout(0);
    other.record_completion(3_599_000);
    assert!(!other.is_available_at(3_600_000));
    assert_eq!(other.state, EngineState::Healthy);
    assert_eq!(other.cooldown_until, Some(3_601_000));
    assert!(other.is_available_at(3_601_000));
}

#[test]
fn deadlines_stop_at_the_largest_time() {
    let mut breaker = Breaker::new();
    breaker.record_timeout(i64::MAX - 5);
    assert_eq!(breaker.state, EngineState::TimedOut { available_at: i64::MAX });
    breaker.record_completion(i64::MAX);
    assert_eq!(breaker.cooldown_until, Some(i64::MAX));
    assert!(!breaker.is_available_at(i64::MAX - 1));
    assert!(breaker.is_available_at(i64::MAX));
}

#[test]
fn timeout_before_the_epoch_counts_from_there() {
    let mut breaker = Breaker::new();
    breaker.record_timeout(-10_000);
    assert_eq!(breaker.state, EngineState::TimedOut { available_at: 3_590_000 });
    assert!(!breaker.is_available_at(0));
    assert!(breaker.is_available_at(3_590_000));
}
