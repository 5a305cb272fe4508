use shutdown_helper::config::Config;
use shutdown_helper::handler::{shutdown_outcome, shutdown_step, HandlerOutcome, HandlerStep};
use shutdown_helper::http::HeaderRef;

fn test_config() -> Config {
    Config {
        port: 8080,
        bind_address: "127.0.0.1".to_string(),
        auth_token: "test-token".to_string(),
        log_dir: "test-logs".to_string(),
    }
}

fn header<'a>(name: &'a str, value: &'a str) -> HeaderRef<'a> {
    HeaderRef { name: name.as_bytes(), value: value.as_bytes() }
}

fn respond(headers: &[HeaderRef], config: &Config, shutdown_succeeds: bool) -> (u16, &'static str) {
    let outcome = match shutdown_step(headers, config) {
        HandlerStep::ShutDown => shutdown_outcome(shutdown_succeeds),
        HandlerStep::Respond(o) => o,
    };
    (outcome.status(), outcome.body())
}

#[test]
fn test_shutdown_authorized() {
    let config = test_config();
    let headers = vec![header("X-Auth-Token", "test-token")];
    let (status, _) = respond(&headers, &config, true);
    assert_eq!(status, 200);
}

#[test]
fn test_shutdown_unauthorized() {
    let config = test_config();
    let headers = vec![header("X-Auth-Token", "wrong-token")];
    let (status, _) = respond(&headers, &config, true);
    assert_eq!(status, 401);

    let headers: Vec<HeaderRef> = Vec::new();
    let (status, _) = respond(&headers, &config, true);
    assert_eq!(status, 401);
}

#[test]
fn failed_shutdown_is_a_server_error() {
    let config = test_config();
    let headers = vec![header("x-auth-token", "test-token")];
    assert_eq!(shutdown_step(&headers, &config), HandlerStep::ShutDown);
    assert_eq!(respond(&headers, &config, false), (500, "Failed to shutdown"));
    assert_eq!(respond(&headers, &config, true), (200, "Shutdown initiated"));
}

#[test]
fn only_the_first_token_header_counts() {
    let config = test_config();
    let headers = vec![header("x-auth-token", "wrong"), header("X-Auth-Token", "test-token")];
    assert_eq!(respond(&headers, &config, true), (401, "Unauthorized"));
    let headers = vec![header("host", "pc"), header("x-auth-token", "test-token"), header("x-auth-token", "x")];
    assert_eq!(shutdown_step(&headers, &config), HandlerStep::ShutDown);
}

#[test]
fn outcome_codes() {
    assert_eq!(HandlerOutcome::Unauthorized.status(), 401);
    assert_eq!(HandlerOutcome::ShutdownFailed.status(), 500);
    assert_eq!(HandlerOutcome::ShutdownInitiated.body(), "Shutdown initiated");
}
