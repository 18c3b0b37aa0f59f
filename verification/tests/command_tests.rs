use everlong::command::append_line;
use everlong::command::collect_lines;
use everlong::command::join_tokens;
use everlong::command::shell_or_default;
use everlong::command::ExitOutcome;

#[test]
fn joins_tokens_with_single_spaces() {
    let tokens = vec!["echo".to_string(), "hi".to_string()];
    assert_eq!(join_tokens(&tokens), "echo hi");
}

#[test]
fn joins_empty_token_list() {
    let tokens: Vec<String> = vec![];
    assert_eq!(join_tokens(&tokens), "");
}

#[test]
fn joins_single_token() {
    let tokens = vec!["make".to_string()];
    assert_eq!(join_tokens(&tokens), "make");
}

#[test]
fn joining_applies_no_escaping() {
    let tokens = vec!["a b".to_string(), "c".to_string()];
    assert_eq!(join_tokens(&tokens), "a b c");
}

#[test]
fn collects_lines_with_trailing_newlines() {
    let lines = vec!["one".to_string(), "two".to_string(), "three".to_string()];
    assert_eq!(collect_lines(&lines), "one\ntwo\nthree\n");
}

#[test]
fn collects_no_lines_as_empty() {
    let lines: Vec<String> = vec![];
    assert_eq!(collect_lines(&lines), "");
}

#[test]
fn append_line_accumulates_in_order() {
    let mut acc = String::new();
    append_line(&mut acc, "first");
    append_line(&mut acc, "second");
    assert_eq!(acc, "first\nsecond\n");
}

#[test]
fn appending_matches_collecting() {
    let lines = vec!["a".to_string(), "".to_string(), "b".to_string()];
    let mut acc = String::new();
    for line in &lines {
        append_line(&mut acc, line);
    }
    assert_eq!(acc, collect_lines(&lines));
}

#[test]
fn zero_exit_code_is_success() {
    assert_eq!(ExitOutcome::from_code(Some(0)), ExitOutcome::Success);
}

#[test]
fn nonzero_exit_code_is_failure() {
    assert_eq!(ExitOutcome::from_code(Some(1)), ExitOutcome::Failure);
    assert_eq!(ExitOutcome::from_code(Some(-1)), ExitOutcome::Failure);
}

#[test]
fn signal_termination_is_failure() {
    assert_eq!(ExitOutcome::from_code(None), ExitOutcome::Failure);
}

#[test]
fn shell_defaults_to_bin_sh() {
    assert_eq!(shell_or_default(None), "/bin/sh");
    assert_eq!(shell_or_default(Some("/bin/zsh")), "/bin/zsh");
}
