use everlong::template::default_failure_message;
use everlong::template::default_success_message;
use everlong::template::substitute_variables;

#[test]
fn substitutes_command_placeholder() {
    let msg = substitute_variables("ran: $CMD", "echo hi", "", "");
    assert_eq!(msg, "ran: echo hi");
}

#[test]
fn template_without_placeholders_is_unchanged() {
    let msg = substitute_variables("nothing to fill", "echo hi", "out", "err");
    assert_eq!(msg, "nothing to fill");
}

#[test]
fn replaces_every_occurrence() {
    let msg = substitute_variables("$CMD and $CMD again", "x", "", "");
    assert_eq!(msg, "x and x again");
}

#[test]
fn substitutes_all_three_placeholders() {
    let msg = substitute_variables("$STDOUT|$STDERR|$CMD", "c", "o", "e");
    assert_eq!(msg, "o|e|c");
}

#[test]
fn substitution_is_sequential() {
    // $CMD is replaced first, so a command that itself holds $STDERR is
    // substituted again by the later pass.
    let msg = substitute_variables("$CMD", "$STDERR", "", "E");
    assert_eq!(msg, "E");
}

#[test]
fn default_success_template() {
    assert_eq!(default_success_message(), "command successfully finished\n$CMD");
}

#[test]
fn default_failure_template() {
    assert_eq!(
        default_failure_message(),
        "command execution failure\n$CMD\n\n$STDERR"
    );
}

#[test]
fn failure_message_from_default_template() {
    let msg = substitute_variables(&default_failure_message(), "echo hi", "", "boom\n");
    assert!(msg.starts_with("command execution failure\necho hi\n\n"));
    assert_eq!(msg, "command execution failure\necho hi\n\nboom\n");
}
