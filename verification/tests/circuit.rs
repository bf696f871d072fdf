use mcpg_plugin_identity_oidc_core::circuit::{
    JwksCircuit, JWKS_CB_FAIL_THRESHOLD, JWKS_CB_OPEN_NANOS, NANOS_PER_SEC,
};

#[test]
fn circuit_opens_after_threshold_failures() {
    let now = 1_000 * NANOS_PER_SEC;
    let mut cb = JwksCircuit::Closed {
        consecutive_failures: 0,
    };
    for _ in 0..(JWKS_CB_FAIL_THRESHOLD - 1) {
        cb.record_failure(now);
        assert!(cb.allow_attempt(now), "still closed");
    }
    cb.record_failure(now);
    assert!(!cb.allow_attempt(now), "breaker should be open now");
}

#[test]
fn circuit_closes_on_success_after_half_open() {
    let now = 1_000 * NANOS_PER_SEC;
    let mut cb = JwksCircuit::Open {
        until: now - NANOS_PER_SEC,
    };
    assert!(cb.allow_attempt(now));
    cb.record_success();
    assert!(cb.allow_attempt(now), "closed after success");
}

#[test]
fn circuit_stays_open_for_thirty_seconds() {
    assert_eq!(JWKS_CB_OPEN_NANOS, 30_000_000_000);
    let mut cb = JwksCircuit::Closed {
        consecutive_failures: 4,
    };
    cb.record_failure(7);
    assert_eq!(cb, JwksCircuit::Open { until: 30_000_000_007 });
    assert!(!cb.allow_attempt(30_000_000_006));
    assert_eq!(cb, JwksCircuit::Open { until: 30_000_000_007 });
    assert!(cb.allow_attempt(30_000_000_007));
    assert_eq!(cb, JwksCircuit::Closed { consecutive_failures: 0 });
}

#[test]
fn a_failure_while_open_prolongs_the_period() {
    let mut cb = JwksCircuit::Open { until: 10 };
    cb.record_failure(20);
    assert_eq!(cb, JwksCircuit::Open { until: 30_000_000_020 });
}

#[test]
fn a_success_forgets_failures() {
    let mut cb = JwksCircuit::Closed {
        consecutive_failures: 4,
    };
    cb.record_success();
    cb.record_failure(0);
    assert_eq!(cb, JwksCircuit::Closed { consecutive_failures: 1 });
}
