use lokan_hub::gateway::{extract_role, extract_subject, ApiError};
use lokan_hub::health::{quorum_met, PollOutcome, StubHealthClient};
use lokan_hub::platform::{validate_token, Announcement, MsgBusConfig};
use lokan_hub::rbac::Role;

#[test]
fn roles_come_from_the_role_header() {
    assert_eq!(extract_role(Some("admin")), Role::Admin);
    assert_eq!(extract_role(Some("OWNER")), Role::Owner);
    assert_eq!(extract_role(Some("nonsense")), Role::Guest);
    assert_eq!(extract_role(None), Role::Guest);
}

#[test]
fn subjects_default_to_anonymous() {
    assert_eq!(extract_subject(Some("alice")), "alice");
    assert_eq!(extract_subject(None), "anonymous");
}

#[test]
fn error_status_mapping() {
    assert_eq!(ApiError::Unauthorized.status_code(), 401);
    assert_eq!(ApiError::Forbidden { reason: "no".to_string() }.status_code(), 403);
    assert_eq!(ApiError::RateLimited { retry_after_secs: 1 }.status_code(), 429);
    assert_eq!(ApiError::Upstream("down".to_string()).status_code(), 502);
    assert_eq!(ApiError::Internal.status_code(), 500);
    assert_eq!(ApiError::Validation { message: "bad".to_string() }.status_code(), 400);

    assert_eq!(ApiError::Unauthorized.code(), "unauthorized");
    assert_eq!(ApiError::Internal.code(), "internal_error");
    assert_eq!(
        ApiError::RateLimited { retry_after_secs: 7 }.retry_after_secs(),
        Some(7)
    );
    assert_eq!(ApiError::Internal.retry_after_secs(), None);
}

fn poll(success: bool, status: &str) -> PollOutcome {
    PollOutcome { success, status: status.to_string() }
}

#[test]
fn health_quorum_counts_ok_responses() {
    // Zero quorum or no endpoints trivially succeeds.
    assert!(quorum_met(&Vec::new(), 3));
    assert!(quorum_met(&vec![poll(false, "down")], 0));

    // Status is matched case-insensitively, and only 2xx responses count.
    let polls = vec![poll(true, "OK"), poll(true, "ok"), poll(false, "ok"), poll(true, "bad")];
    assert!(quorum_met(&polls, 2));
    assert!(!quorum_met(&polls, 3));

    // The quorum clamps to the endpoint count.
    let polls = vec![poll(true, "ok"), poll(true, "ok")];
    assert!(quorum_met(&polls, 10));
}

#[test]
fn stub_health_client_returns_its_verdict() {
    let healthy = StubHealthClient { result: true };
    assert!(healthy.wait_for_quorum(&Vec::new(), 1000, 1));
    let unhealthy = StubHealthClient { result: false };
    assert!(!unhealthy.wait_for_quorum(&Vec::new(), 1000, 1));
}

#[test]
fn announce_returns_handle() {
    let handle = Announcement::new("_lokan._tcp".to_string(), 1234).expect("announcement");
    assert_eq!(handle.service(), "_lokan._tcp");
    assert_eq!(handle.port(), 1234);
    assert!(Announcement::new(String::new(), 1).is_err());
}

#[test]
fn tokens_are_accepted() {
    assert!(validate_token("anything").is_ok());
}

#[test]
fn bus_config_defaults() {
    let config = MsgBusConfig::default();
    assert_eq!(config.url, "nats://127.0.0.1:4222");
    assert_eq!(config.request_timeout(), 2000);
}
