use k8s_entity_provider::backoff::{
    backoff_with_jitter, calculate_backoff, capped_delay, final_connection_error, next_retry_step,
    RetryStep,
};
use k8s_entity_provider::configuration::KubeRetrySettings;
use k8s_entity_provider::errors::KubernetesError;

#[test]
fn first_attempt_waits_base_plus_quarter() {
    for _ in 0..200 {
        let d = calculate_backoff(0, 100, 5000);
        assert!((100..125).contains(&d), "{}", d);
    }
}

#[test]
fn sixth_attempt_saturates_at_max() {
    for _ in 0..200 {
        let d = calculate_backoff(6, 100, 5000);
        assert!((5000..6250).contains(&d), "{}", d);
    }
}

#[test]
fn capped_term_doubles_then_caps() {
    assert_eq!(capped_delay(0, 100, 5000), 100);
    assert_eq!(capped_delay(3, 100, 5000), 800);
    assert_eq!(capped_delay(6, 100, 5000), 5000);
    assert_eq!(capped_delay(200, 100, u64::MAX), u64::MAX);
}

#[test]
fn small_delay_has_unit_jitter_range() {
    for _ in 0..50 {
        assert_eq!(calculate_backoff(0, 2, 5000), 2);
    }
}

#[test]
fn jitter_adds_saturating() {
    assert_eq!(backoff_with_jitter(100, 24), 124);
    assert_eq!(backoff_with_jitter(u64::MAX, 5), u64::MAX);
}

fn settings(max_retries: u32, enabled: bool) -> KubeRetrySettings {
    KubeRetrySettings { max_retries, base_delay_ms: 100, max_delay_ms: 5000, enabled }
}

#[test]
fn retry_steps_follow_policy() {
    assert!(matches!(next_retry_step(&settings(3, true), 0, true), RetryStep::Connected));
    assert!(matches!(next_retry_step(&settings(3, false), 0, false), RetryStep::GiveUp));
    assert!(matches!(next_retry_step(&settings(3, true), 3, false), RetryStep::GiveUp));
    match next_retry_step(&settings(3, true), 1, false) {
        RetryStep::RetryAfter(d) => assert!((200..250).contains(&d)),
        _ => panic!("expected a retry"),
    }
}

#[test]
fn final_error_defaults_to_generic_connection_failure() {
    match final_connection_error(None) {
        KubernetesError::ConnectionError(m) => assert_eq!(
            m,
            "Failed to create Kubernetes client and no specific error was recorded"
        ),
        _ => panic!("expected a connection error"),
    }
    match final_connection_error(Some(KubernetesError::auth("denied"))) {
        KubernetesError::AuthError(m) => assert_eq!(m, "denied"),
        _ => panic!("expected the recorded error"),
    }
}
