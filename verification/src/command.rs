//! Joining command tokens and accumulating captured output lines.

use vstd::prelude::*;

verus! {

/// The tokens joined with single spaces: the shell command line.
pub open spec fn joined(parts: Seq<Seq<char>>) -> Seq<char>
    decreases parts.len(),
{
    if parts.len() == 0 {
        Seq::empty()
    } else if parts.len() == 1 {
        parts[0]
    } else {
        parts[0] + seq![' '] + joined(parts.drop_first())
    }
}

/// Joins the command tokens with single ASCII spaces, with no escaping.
pub fn join_tokens(tokens: &Vec<String>) -> (r: String)
    ensures
        r@ == joined(tokens.deep_view()),
{
    let mut out = String::new();
    let n = tokens.len();
    for i in 0..n
        invariant
            n == tokens.len(),
            out@ == joined(tokens.deep_view().take(i as int)),
    {
        if i > 0 {
            out.append(" ");
            proof {
                reveal_strlit(" ");
            }
        }
        out.append(tokens[i].as_str());
        proof {
            lemma_joined_take_step(tokens.deep_view(), i as int);
        }
    }
    proof {
        assert(tokens.deep_view().take(n as int) =~= tokens.deep_view());
    }
    out
}

/// The shell used when the environment names none.
pub open spec fn default_shell() -> Seq<char> {
    "/bin/sh"@
}

/// Returns the configured shell, or `/bin/sh` when none is configured.
pub fn shell_or_default(shell: Option<&str>) -> (r: String)
    ensures
        r@ == match shell {
            Some(s) => s@,
            None => default_shell(),
        },
{
    match shell {
        Some(s) => s.to_owned(),
        None => "/bin/sh".to_owned(),
    }
}

/// The captured text of a stream: each line in emission order, each followed
/// by a newline.
pub open spec fn lines_concat(lines: Seq<Seq<char>>) -> Seq<char>
    decreases lines.len(),
{
    if lines.len() == 0 {
        Seq::empty()
    } else {
        lines[0] + seq!['\n'] + lines_concat(lines.drop_first())
    }
}

/// Appends one captured line and a trailing newline to a stream accumulator.
pub fn append_line(acc: &mut String, line: &str)
    ensures
        final (acc)@ == old(acc)@ + line@ + seq!['\n'],
{
    acc.append(line);
    acc.append("\n");
    proof {
        reveal_strlit("\n");
        assert("\n"@ =~= seq!['\n']);
    }
}

/// Accumulates captured lines: each line followed by a newline, in order.
pub fn collect_lines(lines: &Vec<String>) -> (r: String)
    ensures
        r@ == lines_concat(lines.deep_view()),
{
    let mut out = String::new();
    let n = lines.len();
    for i in 0..n
        invariant
            n == lines.len(),
            out@ == lines_concat(lines.deep_view().take(i as int)),
    {
        append_line(&mut out, lines[i].as_str());
        proof {
            lemma_lines_concat_take_step(lines.deep_view(), i as int);
        }
    }
    proof {
        assert(lines.deep_view().take(n as int) =~= lines.deep_view());
    }
    out
}

proof fn lemma_lines_concat_take_step(lines: Seq<Seq<char>>, i: int)
    requires
        0 <= i < lines.len(),
    ensures
        lines_concat(lines.take(i + 1)) == lines_concat(lines.take(i)) + lines[i] + seq!['\n'],
    decreases i,
{
    let a = lines.take(i + 1);
    let b = lines.take(i);
    if i == 0 {
        assert(a.drop_first() =~= Seq::<Seq<char>>::empty());
        assert(lines_concat(a) == a[0] + seq!['\n'] + lines_concat(a.drop_first()));
        assert(lines_concat(a) =~= lines[0] + seq!['\n']);
        assert(lines_concat(b) + lines[0] + seq!['\n'] =~= lines[0] + seq!['\n']);
    } else {
        lemma_lines_concat_take_step(lines.drop_first(), i - 1);
        assert(a.drop_first() =~= lines.drop_first().take(i));
        assert(b.drop_first() =~= lines.drop_first().take(i - 1));
        assert(a[0] == lines[0]);
        assert(b[0] == lines[0]);
        assert(lines_concat(a) == a[0] + seq!['\n'] + lines_concat(a.drop_first()));
        assert(lines_concat(b) == b[0] + seq!['\n'] + lines_concat(b.drop_first()));
        assert(lines_concat(a) =~= lines_concat(b) + lines[i] + seq!['\n']);
    }
}

/// The two-variant outcome of the wrapped command: a zero exit code is a
/// success; any other exit, including termination by a signal (no exit
/// code), is a failure.
#[derive(Clone, Copy, Debug, PartialEq, Eq, Structural)]
pub enum ExitOutcome {
    Success,
    Failure,
}

impl ExitOutcome {
    /// Classifies an exit code as reported for the child process: code zero
    /// and nothing else is a success.
    pub fn from_code(code: Option<i32>) -> (r: ExitOutcome)
        ensures
            (r is Success) <==> code == Some(0i32),
    {
        match code {
            Some(0) => ExitOutcome::Success,
            _ => ExitOutcome::Failure,
        }
    }
}

proof fn lemma_joined_take_step(parts: Seq<Seq<char>>, i: int)
    requires
        0 <= i < parts.len(),
    ensures
        i == 0 ==> joined(parts.take(i + 1)) == joined(parts.take(i)) + parts[i],
        i > 0 ==> joined(parts.take(i + 1)) == joined(parts.take(i)) + seq![' '] + parts[i],
    decreases i,
{
    if i == 0 {
        assert(parts.take(1) =~= seq![parts[0]]);
        assert(joined(parts.take(1)) == parts[0]);
        assert(joined(parts.take(0)) == Seq::<char>::empty());
        assert(joined(parts.take(0)) + parts[0] =~= parts[0]);
    } else {
        let a = parts.take(i + 1);
        let b = parts.take(i);
        lemma_joined_take_step(parts.drop_first(), i - 1);
        assert(a.drop_first() =~= parts.drop_first().take(i));
        assert(b.drop_first() =~= parts.drop_first().take(i - 1));
        assert(a[0] == parts[0]);
        assert(b[0] == parts[0]);
        if i == 1 {
            assert(joined(a) == a[0] + seq![' '] + joined(a.drop_first()));
            assert(joined(parts.drop_first().take(1)) == parts.drop_first()[0]);
            assert(joined(b) == b[0]);
            assert(joined(a) =~= joined(b) + seq![' '] + parts[1]);
        } else {
            assert(joined(a) == a[0] + seq![' '] + joined(a.drop_first()));
            assert(joined(b) == b[0] + seq![' '] + joined(b.drop_first()));
            assert(joined(a) =~= joined(b) + seq![' '] + parts[i]);
        }
    }
}

} // verus!
