use sigops_agent::heartbeat::{
    after_failed_attempt, apply_rotated_token, backoff_delay_secs, classify_fetch_status,
    heartbeat_url, next_command_url, normalize_server_url, result_url, FetchStatus,
    HeartbeatResponse, RotationOutcome, MAX_CONSECUTIVE_FAILURES,
};
use sigops_agent::security::{SecurityError, TokenStore};

#[test]
fn test_backoff_delay_calculation() {
    assert_eq!(backoff_delay_secs(0), 2);
    assert_eq!(backoff_delay_secs(1), 4);
    assert_eq!(backoff_delay_secs(2), 8);
    assert_eq!(backoff_delay_secs(3), 16);
    assert_eq!(backoff_delay_secs(4), 32);
    assert_eq!(backoff_delay_secs(5), 60);
    assert_eq!(backoff_delay_secs(10), 60);
}

#[test]
fn test_backoff_large_attempts_capped() {
    assert_eq!(backoff_delay_secs(63), 60);
    assert_eq!(backoff_delay_secs(u32::MAX - 1), 60);
}

#[test]
fn test_retry_schedule_of_a_failing_round() {
    let mut delays = Vec::new();
    let mut attempt = 0;
    loop {
        let d = after_failed_attempt(attempt);
        delays.push(d.delay_secs);
        if !d.retry {
            break;
        }
        attempt += 1;
    }
    assert_eq!(delays, vec![2, 4, 8, 16, 32]);
    assert_eq!(delays.len() as u32, MAX_CONSECUTIVE_FAILURES);
}

#[test]
fn test_heartbeat_client_creation() {
    assert_eq!(
        normalize_server_url("http://localhost:4200/"),
        "http://localhost:4200"
    );
    assert_eq!(TokenStore::new("token").current(), "token");
}

#[test]
fn test_endpoints() {
    let base = normalize_server_url("https://sigops.example.com///");
    assert_eq!(base, "https://sigops.example.com");
    assert_eq!(
        heartbeat_url(&base),
        "https://sigops.example.com/api/v1/agents/heartbeat"
    );
    assert_eq!(
        next_command_url(&base, "test-agent-001"),
        "https://sigops.example.com/api/v1/agents/test-agent-001/command/next"
    );
    assert_eq!(
        result_url(&base, "cmd-int-42"),
        "https://sigops.example.com/api/v1/agents/command/cmd-int-42/result"
    );
}

#[test]
fn test_fetch_status_classification() {
    assert_eq!(classify_fetch_status(204), FetchStatus::NoCommand);
    assert_eq!(classify_fetch_status(200), FetchStatus::Ready);
    assert_eq!(classify_fetch_status(404), FetchStatus::Failed);
    assert_eq!(classify_fetch_status(500), FetchStatus::Failed);
    assert_eq!(classify_fetch_status(199), FetchStatus::Failed);
}

#[test]
fn test_heartbeat_client_applies_rotation() {
    let mut tokens = TokenStore::new("initial-token-abcd");
    let resp = HeartbeatResponse {
        agent_id: "a1".to_string(),
        status: "ONLINE".to_string(),
        rotated_token: Some("rotated-token-efgh".to_string()),
    };
    assert_eq!(apply_rotated_token(&mut tokens, &resp), RotationOutcome::Rotated);
    assert_eq!(tokens.current(), "rotated-token-efgh");
}

#[test]
fn test_rotation_outcomes() {
    let mut tokens = TokenStore::new("initial-token-abcd");
    let mut resp = HeartbeatResponse {
        agent_id: "a1".to_string(),
        status: "ONLINE".to_string(),
        rotated_token: None,
    };
    assert_eq!(apply_rotated_token(&mut tokens, &resp), RotationOutcome::NotOffered);
    resp.rotated_token = Some("initial-token-abcd".to_string());
    assert_eq!(apply_rotated_token(&mut tokens, &resp), RotationOutcome::Unchanged);
    resp.rotated_token = Some("bad".to_string());
    assert_eq!(
        apply_rotated_token(&mut tokens, &resp),
        RotationOutcome::Rejected(SecurityError::InvalidToken(
            "token too short (min 8 chars)".to_string()
        ))
    );
    assert_eq!(tokens.current(), "initial-token-abcd");
}

#[test]
fn test_normalization_is_idempotent() {
    for url in ["http://a/", "http://a", "http://a//", "/", ""] {
        let once = normalize_server_url(url);
        assert!(!once.ends_with('/'));
        assert_eq!(normalize_server_url(&once), once);
    }
}

#[test]
fn test_backoff_never_shrinks_and_stays_bounded() {
    let mut prev = 0;
    for a in 0..20u32 {
        let d = backoff_delay_secs(a);
        assert!((2..=60).contains(&d));
        assert!(d >= prev);
        prev = d;
    }
}
