use astral_llm_application::circuit_breaker::{CircuitBreakerState, ProviderCircuitBreaker};

#[test]
fn opens_after_threshold() {
    let mut cb = ProviderCircuitBreaker::new(2, 30);
    let provider = "openai";
    assert!(cb.allows_call(provider, 0));
    cb.record_transient_failure(provider, 0);
    assert!(cb.allows_call(provider, 0));
    cb.record_transient_failure(provider, 0);
    assert!(!cb.allows_call(provider, 0));
}

#[test]
fn half_open_allows_single_probe() {
    let mut cb = ProviderCircuitBreaker::new(1, 60);
    let provider = "mistral";
    cb.record_transient_failure(provider, 1_000);
    assert!(!cb.allows_call(provider, 1_000));
    // the cool-down of 60 s has elapsed: the circuit turns half-open for one probe
    assert!(cb.allows_call(provider, 61_000));
    assert!(!cb.allows_call(provider, 61_000));
    cb.record_success(provider);
    assert!(cb.allows_call(provider, 61_000));
}

#[test]
fn open_circuit_refuses_until_cooldown_elapses() {
    let mut cb = ProviderCircuitBreaker::new(1, 10);
    cb.record_transient_failure("openai", 5_000);
    assert!(!cb.allows_call("openai", 14_999));
    assert!(cb.allows_call("openai", 15_000));
    assert_eq!(cb.snapshot(), vec![("openai".to_string(), CircuitBreakerState::HalfOpen)]);
}

#[test]
fn failed_probe_reopens_the_circuit() {
    let mut cb = ProviderCircuitBreaker::new(3, 10);
    for _ in 0..3 {
        cb.record_transient_failure("openai", 0);
    }
    assert!(!cb.allows_call("openai", 9_999));
    assert!(cb.allows_call("openai", 10_000));
    cb.record_transient_failure("openai", 10_000);
    assert_eq!(cb.snapshot(), vec![("openai".to_string(), CircuitBreakerState::Open)]);
    assert!(!cb.allows_call("openai", 19_999));
}

#[test]
fn released_probe_lets_the_next_call_through() {
    let mut cb = ProviderCircuitBreaker::new(1, 0);
    cb.record_transient_failure("openai", 0);
    assert!(cb.allows_call("openai", 0));
    assert!(!cb.allows_call("openai", 0));
    cb.release_half_open_probe("openai");
    assert!(cb.allows_call("openai", 0));
}

#[test]
fn threshold_zero_behaves_as_one_and_providers_are_independent() {
    let mut cb = ProviderCircuitBreaker::new(0, 30);
    cb.record_transient_failure("openai", 0);
    assert!(!cb.allows_call("openai", 0));
    assert!(cb.allows_call("mistral", 0));
    let snap = cb.snapshot();
    assert_eq!(snap.len(), 2);
    assert!(snap.contains(&("openai".to_string(), CircuitBreakerState::Open)));
    assert!(snap.contains(&("mistral".to_string(), CircuitBreakerState::Closed)));
}

#[test]
fn success_on_unseen_provider_records_nothing() {
    let mut cb = ProviderCircuitBreaker::new(2, 30);
    cb.record_success("openai");
    assert!(cb.snapshot().is_empty());
}
