//! Webhook notification: host extraction, payload shape, and the JSON body.

use vstd::prelude::*;
use crate::command::ExitOutcome;
use crate::config::Config;
use crate::template::substitute_variables;
use crate::template::substituted;
use crate::text::contains_seq;
use crate::text::contains_str;
use crate::text::find_at;
use crate::text::find_str;
use crate::text::lemma_find_at;

verus! {

/// Whether a character ends the authority part of a URL.
pub open spec fn ends_authority(c: char) -> bool {
    c == '/' || c == '?' || c == '#'
}

/// The length of the authority part of `s`: the run of characters before
/// the first `/`, `?` or `#`.
pub open spec fn authority_len(s: Seq<char>) -> int
    decreases s.len(),
{
    if s.len() == 0 {
        0
    } else if ends_authority(s[0]) {
        0
    } else {
        1 + authority_len(s.drop_first())
    }
}

proof fn lemma_authority_len(s: Seq<char>)
    ensures
        0 <= authority_len(s) <= s.len(),
        forall|k: int| 0 <= k < authority_len(s) ==> !ends_authority(#[trigger] s[k]),
        authority_len(s) < s.len() ==> ends_authority(s[authority_len(s)]),
    decreases s.len(),
{
    if s.len() == 0 {
    } else if ends_authority(s[0]) {
    } else {
        lemma_authority_len(s.drop_first());
        assert forall|k: int| 0 <= k < authority_len(s) implies !ends_authority(
            #[trigger] s[k],
        ) by {
            if k > 0 {
                assert(s.drop_first()[k - 1] == s[k]);
            }
        }
        if authority_len(s) < s.len() {
            assert(s.drop_first()[authority_len(s) - 1] == s[authority_len(s)]);
        }
    }
}

/// The host of a URL: what stands between `://` and the end of the
/// authority, with any user information before `@` and any port after `:`
/// stripped. A URL with no `://` has no host.
pub open spec fn host_of(url: Seq<char>) -> Seq<char> {
    let i = find_at(url, "://"@);
    if i < 0 {
        Seq::empty()
    } else {
        let rest = url.skip(i + 3);
        let auth = rest.take(authority_len(rest));
        let a = find_at(auth, "@"@);
        let after_user = if a < 0 {
            auth
        } else {
            auth.skip(a + 1)
        };
        let p = find_at(after_user, ":"@);
        if p < 0 {
            after_user
        } else {
            after_user.take(p)
        }
    }
}

fn is_end_char(c: char) -> (r: bool)
    ensures
        r == ends_authority(c),
{
    c == '/' || c == '?' || c == '#'
}

/// Extracts the host of a URL, or the empty string when it has none.
pub fn url_host(url: &str) -> (r: String)
    ensures
        r@ == host_of(url@),
{
    proof {
        reveal_strlit("://");
        reveal_strlit("@");
        reveal_strlit(":");
    }
    let scheme = find_str(url, "://");
    match scheme {
        None => String::new(),
        Some(i) => {
            proof {
                lemma_find_at(url@, "://"@);
            }
            let n = url.unicode_len();
            let start = i + 3;
            let ghost rest = url@.skip(start as int);
            let mut j = start;
            loop
                invariant
                    start <= j <= n,
                    n == url@.len(),
                    start <= n,
                    rest == url@.skip(start as int),
                    forall|k: int| 0 <= k < j - start ==> !ends_authority(#[trigger] rest[k]),
                ensures
                    start <= j <= n,
                    forall|k: int| 0 <= k < j - start ==> !ends_authority(#[trigger] rest[k]),
                    j == n || ends_authority(rest[j - start]),
                decreases n - j,
            {
                if j == n {
                    break ;
                }
                let c = url.get_char(j);
                proof {
                    assert(rest[j - start] == url@[j as int]);
                }
                if is_end_char(c) {
                    break ;
                }
                j += 1;
            }
            proof {
                lemma_authority_len(rest);
                let a = authority_len(rest);
                if a < j - start {
                    assert(!ends_authority(rest[a]));
                    assert(ends_authority(rest[a]));
                }
                if a > j - start {
                    assert(!ends_authority(rest[j - start]));
                    assert(j < n);
                }
                assert(a == j - start);
                assert(url@.subrange(start as int, j as int) =~= rest.take(authority_len(rest)));
            }
            let auth = url.substring_char(start, j);
            let after_user = match find_str(auth, "@") {
                None => auth,
                Some(a) => {
                    proof {
                        lemma_find_at(auth@, "@"@);
                    }
                    let alen = auth.unicode_len();
                    let hp = auth.substring_char(a + 1, alen);
                    proof {
                        assert(hp@ =~= auth@.skip(a + 1));
                    }
                    hp
                },
            };
            match find_str(after_user, ":") {
                None => after_user.to_owned(),
                Some(p) => {
                    proof {
                        lemma_find_at(after_user@, ":"@);
                        assert(after_user@.subrange(0, p as int) =~= after_user@.take(p as int));
                    }
                    after_user.substring_char(0, p).to_owned()
                },
            }
        },
    }
}

/// Whether the notification goes to a Slack-style endpoint: the URL's host
/// contains `slack.com`.
pub open spec fn is_slack_url(url: Seq<char>) -> bool {
    contains_seq(host_of(url), "slack.com"@)
}

/// Decides the payload shape: Slack when the URL's host contains
/// `slack.com`.
pub fn is_slack_webhook(url: &str) -> (r: bool)
    ensures
        r == is_slack_url(url@),
{
    proof {
        reveal_strlit("slack.com");
    }
    let host = url_host(url);
    contains_str(host.as_str(), "slack.com")
}

/// The lowercase hexadecimal digit for a value below sixteen.
pub open spec fn low_hex_digit(n: int) -> char {
    if n == 0 {
        '0'
    } else if n == 1 {
        '1'
    } else if n == 2 {
        '2'
    } else if n == 3 {
        '3'
    } else if n == 4 {
        '4'
    } else if n == 5 {
        '5'
    } else if n == 6 {
        '6'
    } else if n == 7 {
        '7'
    } else if n == 8 {
        '8'
    } else if n == 9 {
        '9'
    } else if n == 10 {
        'a'
    } else if n == 11 {
        'b'
    } else if n == 12 {
        'c'
    } else if n == 13 {
        'd'
    } else if n == 14 {
        'e'
    } else {
        'f'
    }
}

/// How one character is written inside a JSON string: the double quote, the
/// backslash and the control characters below U+0020 are escaped, every
/// other character stands as itself.
pub open spec fn json_escape_char(c: char) -> Seq<char> {
    if c == '"' {
        seq!['\\', '"']
    } else if c == '\\' {
        seq!['\\', '\\']
    } else if c == '\u{8}' {
        seq!['\\', 'b']
    } else if c == '\t' {
        seq!['\\', 't']
    } else if c == '\n' {
        seq!['\\', 'n']
    } else if c == '\u{c}' {
        seq!['\\', 'f']
    } else if c == '\r' {
        seq!['\\', 'r']
    } else if (c as u32) < 0x20 {
        seq!['\\', 'u', '0', '0', low_hex_digit(c as u32 as int / 16), low_hex_digit(
            c as u32 as int % 16,
        )]
    } else {
        seq![c]
    }
}

/// The characters of `s` as they are written inside a JSON string.
pub open spec fn json_escaped(s: Seq<char>) -> Seq<char>
    decreases s.len(),
{
    if s.len() == 0 {
        Seq::empty()
    } else {
        json_escape_char(s[0]) + json_escaped(s.drop_first())
    }
}

/// The JSON string literal holding `s`: quoted and escaped.
pub open spec fn json_quoted(s: Seq<char>) -> Seq<char> {
    seq!['"'] + json_escaped(s) + seq!['"']
}

/// Relies on serde_json::to_string on a string slice: it writes an opening
/// double quote, the characters of the slice — with `"`, `\` and the
/// control characters below U+0020 escaped, the latter as `\b`, `\t`, `\n`,
/// `\f`, `\r` or `\u00` plus two lowercase hex digits, and everything else
/// verbatim — and a closing double quote. On a string slice serialization
/// cannot fail.
#[verifier::external_body]
fn json_quote(s: &str) -> (r: String)
    ensures
        r@ == json_quoted(s@),
{
    match serde_json::to_string(s) {
        Ok(r) => r,
        Err(_) => String::new(),
    }
}

/// The payload key: `text` for a Slack host, `content` otherwise.
pub open spec fn payload_key(url: Seq<char>) -> Seq<char> {
    if is_slack_url(url) {
        "text"@
    } else {
        "content"@
    }
}

/// The JSON body posted to the webhook: one key chosen by the destination
/// host, holding the message.
pub open spec fn payload_body_spec(url: Seq<char>, message: Seq<char>) -> Seq<char> {
    seq!['{', '"'] + payload_key(url) + seq!['"', ':'] + json_quoted(message) + seq!['}']
}

/// Builds the JSON body for the webhook: `{"text":...}` when the URL's host
/// contains `slack.com`, else `{"content":...}`, with the message as a JSON
/// string.
pub fn payload_body(url: &str, message: &str) -> (r: String)
    ensures
        r@ == payload_body_spec(url@, message@),
{
    let mut out = String::new();
    if is_slack_webhook(url) {
        out.append("{\"text\":");
        proof {
            reveal_strlit("{\"text\":");
            reveal_strlit("text");
            assert(out@ =~= seq!['{', '"'] + "text"@ + seq!['"', ':']);
        }
    } else {
        out.append("{\"content\":");
        proof {
            reveal_strlit("{\"content\":");
            reveal_strlit("content");
            assert(out@ =~= seq!['{', '"'] + "content"@ + seq!['"', ':']);
        }
    }
    let quoted = json_quote(message);
    out.append(quoted.as_str());
    out.append("}");
    proof {
        reveal_strlit("}");
        assert("}"@ =~= seq!['}']);
        assert(out@ =~= payload_body_spec(url@, message@));
    }
    out
}

/// Selects the success or the failure template by the command's outcome.
pub fn select_template<'a>(config: &'a Config, outcome: ExitOutcome) -> (r: &'a str)
    ensures
        r@ == if outcome is Success {
            config.success_message@
        } else {
            config.failure_message@
        },
{
    match outcome {
        ExitOutcome::Success => config.success_message.as_str(),
        ExitOutcome::Failure => config.failure_message.as_str(),
    }
}

/// The whole notification in one step: selects the template by the outcome,
/// fills the placeholders, and wraps the message in the JSON body for the
/// configured webhook.
pub fn notification_body(
    config: &Config,
    outcome: ExitOutcome,
    command: &str,
    stdout: &str,
    stderr: &str,
) -> (r: String)
    ensures
        r@ == payload_body_spec(
            config.webhook_url@,
            substituted(
                if outcome is Success {
                    config.success_message@
                } else {
                    config.failure_message@
                },
                command@,
                stdout@,
                stderr@,
            ),
        ),
{
    let template = select_template(config, outcome);
    let message = substitute_variables(template, command, stdout, stderr);
    payload_body(config.webhook_url.as_str(), message.as_str())
}

} // verus!
