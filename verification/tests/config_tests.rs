use everlong::config::config_file_path;
use everlong::config::Config;
use everlong::errors::RunError;

#[test]
fn explicit_templates_are_kept() {
    let config = Config::new(
        "https://example.com/hook".to_string(),
        Some("yes".to_string()),
        Some("no".to_string()),
    );
    assert_eq!(config.webhook_url, "https://example.com/hook");
    assert_eq!(config.success_message, "yes");
    assert_eq!(config.failure_message, "no");
}

#[test]
fn missing_templates_fall_back_to_defaults() {
    let config = Config::new("https://example.com/hook".to_string(), None, None);
    assert_eq!(config.success_message, "command successfully finished\n$CMD");
    assert_eq!(config.failure_message, "command execution failure\n$CMD\n\n$STDERR");
}

#[test]
fn config_path_under_config_dir() {
    assert_eq!(config_file_path(Some("/xdg"), "/home/u"), "/xdg/everlong.yaml");
}

#[test]
fn config_path_under_home_when_no_config_dir() {
    assert_eq!(config_file_path(None, "/home/u"), "/home/u/.config/everlong.yaml");
}

#[test]
fn config_open_failure_has_its_own_context() {
    assert_eq!(RunError::ConfigOpen.context_message(), "Failed to open config file");
    assert_eq!(RunError::ConfigParse.context_message(), "Can't parse config");
}

#[test]
fn each_phase_has_a_context() {
    let phases = vec![
        RunError::ConfigOpen,
        RunError::ConfigParse,
        RunError::Spawn,
        RunError::CaptureStdout,
        RunError::CaptureStderr,
        RunError::Wait,
        RunError::Notify,
    ];
    for phase in &phases {
        assert!(!phase.context_message().is_empty());
    }
}

#[test]
fn aborted_runs_exit_nonzero() {
    assert_ne!(RunError::ConfigOpen.exit_code(), 0);
    assert_ne!(RunError::Notify.exit_code(), 0);
}
