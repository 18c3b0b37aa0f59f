//! Message templates and placeholder substitution.
//!
//! A template may contain the literal placeholders `$CMD`, `$STDOUT` and
//! `$STDERR`. Substitution replaces every occurrence of each placeholder
//! with the joined command string, the captured standard output and the
//! captured standard error, in that order, with no escaping.

use vstd::prelude::*;
use crate::text::contains_seq;
use crate::text::lemma_replace_all_absent;
use crate::text::replace_all;
use crate::text::replace_all_str;

verus! {

/// The template with every `$CMD` replaced by `command`, then every
/// `$STDOUT` by `out`, then every `$STDERR` by `err`.
pub open spec fn substituted(
    template: Seq<char>,
    command: Seq<char>,
    out: Seq<char>,
    err: Seq<char>,
) -> Seq<char> {
    replace_all(
        replace_all(replace_all(template, "$CMD"@, command), "$STDOUT"@, out),
        "$STDERR"@,
        err,
    )
}

/// Fills the three placeholders of a message template.
pub fn substitute_variables(message: &str, command: &str, stdout: &str, stderr: &str) -> (r:
    String)
    ensures
        r@ == substituted(message@, command@, stdout@, stderr@),
{
    proof {
        reveal_strlit("$CMD");
        reveal_strlit("$STDOUT");
        reveal_strlit("$STDERR");
    }
    let a = replace_all_str(message, "$CMD", command);
    let b = replace_all_str(a.as_str(), "$STDOUT", stdout);
    replace_all_str(b.as_str(), "$STDERR", stderr)
}

/// A template that contains none of the three placeholders is passed
/// through substitution unchanged, whatever the command and captured
/// streams are.
pub proof fn lemma_no_placeholders_unchanged(
    template: Seq<char>,
    command: Seq<char>,
    out: Seq<char>,
    err: Seq<char>,
)
    requires
        !contains_seq(template, "$CMD"@),
        !contains_seq(template, "$STDOUT"@),
        !contains_seq(template, "$STDERR"@),
    ensures
        substituted(template, command, out, err) == template,
{
    reveal_strlit("$CMD");
    reveal_strlit("$STDOUT");
    reveal_strlit("$STDERR");
    lemma_replace_all_absent(template, "$CMD"@, command);
    lemma_replace_all_absent(template, "$STDOUT"@, out);
    lemma_replace_all_absent(template, "$STDERR"@, err);
}

/// The success template used when the configuration names none.
pub fn default_success_message() -> (r: String)
    ensures
        r@ == "command successfully finished\n$CMD"@,
{
    "command successfully finished\n$CMD".to_owned()
}

/// The failure template used when the configuration names none.
pub fn default_failure_message() -> (r: String)
    ensures
        r@ == "command execution failure\n$CMD\n\n$STDERR"@,
{
    "command execution failure\n$CMD\n\n$STDERR".to_owned()
}

} // verus!
