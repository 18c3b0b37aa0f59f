use everlong::command::ExitOutcome;
use everlong::config::Config;
use everlong::notify::is_slack_webhook;
use everlong::notify::notification_body;
use everlong::notify::payload_body;
use everlong::notify::select_template;
use everlong::notify::url_host;

#[test]
fn extracts_host_from_slack_url() {
    assert_eq!(url_host("https://hooks.slack.com/services/x"), "hooks.slack.com");
}

#[test]
fn extracts_host_from_discord_url() {
    assert_eq!(url_host("https://discord.com/api/webhooks/x"), "discord.com");
}

#[test]
fn strips_userinfo_and_port_from_host() {
    assert_eq!(url_host("https://user:pw@example.com:8080/hook?a#b"), "example.com");
}

#[test]
fn url_without_scheme_has_no_host() {
    assert_eq!(url_host("hooks.slack.com/services/x"), "");
}

#[test]
fn slack_host_selects_text_key() {
    assert!(is_slack_webhook("https://hooks.slack.com/services/x"));
    assert!(!is_slack_webhook("https://discord.com/api/webhooks/x"));
}

#[test]
fn slack_in_path_does_not_select_text_key() {
    assert!(!is_slack_webhook("https://example.com/slack.com"));
}

#[test]
fn slack_payload_uses_text_key() {
    let body = payload_body("https://hooks.slack.com/services/x", "<message>");
    assert_eq!(body, "{\"text\":\"<message>\"}");
}

#[test]
fn other_payload_uses_content_key() {
    let body = payload_body("https://discord.com/api/webhooks/x", "<message>");
    assert_eq!(body, "{\"content\":\"<message>\"}");
}

#[test]
fn payload_escapes_message() {
    let body = payload_body("https://discord.com/api/webhooks/x", "a\"b\\c\nd");
    assert_eq!(body, "{\"content\":\"a\\\"b\\\\c\\nd\"}");
}

#[test]
fn payload_escapes_control_characters() {
    let body = payload_body("https://discord.com/api/webhooks/x", "\u{1}\u{1f}");
    assert_eq!(body, "{\"content\":\"\\u0001\\u001f\"}");
}

fn sample_config() -> Config {
    Config::new(
        "https://hooks.slack.com/services/x".to_string(),
        Some("ok: $CMD".to_string()),
        Some("bad: $CMD ($STDERR)".to_string()),
    )
}

#[test]
fn success_selects_success_template() {
    let config = sample_config();
    assert_eq!(select_template(&config, ExitOutcome::Success), "ok: $CMD");
}

#[test]
fn failure_selects_failure_template() {
    let config = sample_config();
    assert_eq!(select_template(&config, ExitOutcome::Failure), "bad: $CMD ($STDERR)");
}

#[test]
fn notification_body_for_success() {
    let config = sample_config();
    let body = notification_body(&config, ExitOutcome::Success, "echo hi", "hi\n", "");
    assert_eq!(body, "{\"text\":\"ok: echo hi\"}");
}

#[test]
fn notification_body_for_failure() {
    let config = sample_config();
    let body = notification_body(&config, ExitOutcome::Failure, "echo hi", "", "oops\n");
    assert_eq!(body, "{\"text\":\"bad: echo hi (oops\\n)\"}");
}
