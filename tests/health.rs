use gust::health::{overall_status, Health, HealthCheck, HealthCheckResult, HealthStatus};
use gust::session::{generate_session_id, sign_session_id, verify_session_id};
use gust::status::StatusCode;

#[test]
fn test_health_status() {
    assert_eq!(HealthStatus::Healthy.as_str(), "healthy");
    assert_eq!(HealthStatus::Healthy.status_code(), StatusCode(200));
    assert_eq!(HealthStatus::Unhealthy.status_code(), StatusCode(503));
}

fn result(status: HealthStatus) -> HealthCheckResult {
    HealthCheckResult { name: "c".to_string(), status, message: None, duration_ns: 0 }
}

fn boxed(s: HealthStatus) -> Box<dyn Fn() -> HealthCheckResult> {
    Box::new(move || result(s))
}

#[test]
fn test_health_check() {
    let mut health: Health<Box<dyn Fn() -> HealthCheckResult>> = Health::new();
    health = health.check(HealthCheck::new("db", boxed(HealthStatus::Healthy)));
    health = health.check(HealthCheck::new("cache", boxed(HealthStatus::Degraded)).non_critical());
    let (status, results) = health.run_checks();
    assert_eq!(status, HealthStatus::Degraded);
    assert_eq!(results.len(), 2);
    health = health.check(HealthCheck::new("disk", boxed(HealthStatus::Unhealthy)));
    assert_eq!(health.run_checks().0, HealthStatus::Unhealthy);
}

#[test]
fn test_health_probes() {
    let mut health: Health<fn() -> HealthCheckResult> = Health::new();
    assert!(health.is_ready());
    health.set_ready(false);
    assert!(!health.is_ready());
    health.set_started(false);
    assert!(!health.is_started());
}

#[test]
fn overall_status_rules() {
    let (h, u, d) = (HealthStatus::Healthy, HealthStatus::Unhealthy, HealthStatus::Degraded);
    assert_eq!(overall_status(&[]), h);
    assert_eq!(overall_status(&[(false, u)]), h);
    assert_eq!(overall_status(&[(true, u), (false, d)]), u);
    assert_eq!(overall_status(&[(false, d), (true, h)]), d);
}

#[test]
fn test_session_signing_invalid() {
    let id = "test-session-id";
    let secret = "my-secret-key";

    let signed = sign_session_id(id, secret);

    assert_eq!(verify_session_id(&signed, "wrong-secret"), None);

    let tampered = format!("{}.invalid", id);
    assert_eq!(verify_session_id(&tampered, secret), None);
}

#[test]
fn test_session_signing() {
    let signed = sign_session_id("abc.def", "k");
    assert_eq!(verify_session_id(&signed, "k"), Some("abc.def".to_string()));
    assert_eq!(verify_session_id("nodot", "k"), None);
}

#[test]
fn test_session_id_generation() {
    let id = generate_session_id();
    assert_eq!(id.len(), 32);
    assert!(id.chars().all(|c| c.is_ascii_alphanumeric() || c == '-' || c == '_'));
}
