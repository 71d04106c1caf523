//! Clean-up of a shell command proposed by a language model.

use vstd::prelude::*;
use vstd::string::StringExecFns;
use crate::text::{chars_of, string_of, whitespace_of};

verus! {

/// `s` without its leading whitespace.
pub open spec fn trim_start(s: Seq<char>) -> Seq<char>
    decreases s.len(),
{
    if s.len() > 0 && whitespace_of(s[0]) {
        trim_start(s.skip(1))
    } else {
        s
    }
}

/// `s` without its trailing whitespace.
pub open spec fn trim_end(s: Seq<char>) -> Seq<char>
    decreases s.len(),
{
    if s.len() > 0 && whitespace_of(s.last()) {
        trim_end(s.drop_last())
    } else {
        s
    }
}

/// `s` without `p` in front, when it starts with `p`.
pub open spec fn strip_prefix(s: Seq<char>, p: Seq<char>) -> Seq<char> {
    if p.len() <= s.len() && s.take(p.len() as int) == p {
        s.skip(p.len() as int)
    } else {
        s
    }
}

/// `s` without the quote character `q` around it, when it is quoted and holds more than
/// the two quotes.
pub open spec fn strip_quotes(s: Seq<char>, q: char) -> Seq<char> {
    if s.len() > 2 && s[0] == q && s.last() == q {
        s.subrange(1, s.len() - 1)
    } else {
        s
    }
}

/// The cleaned command: trimmed; the prompt-like prefixes "$ ", "# ", "> ", "bash: ",
/// "shell: " and "command: " removed, each in turn when present; then one pair of double
/// quotes, then one pair of single quotes, removed from around it.
pub open spec fn cleaned(s: Seq<char>) -> Seq<char> {
    let t = trim_end(trim_start(s));
    let t = strip_prefix(t, "$ "@);
    let t = strip_prefix(t, "# "@);
    let t = strip_prefix(t, "> "@);
    let t = strip_prefix(t, "bash: "@);
    let t = strip_prefix(t, "shell: "@);
    let t = strip_prefix(t, "command: "@);
    strip_quotes(strip_quotes(t, '"'), '\'')
}

/// The characters of `s` from position `from` up to `to`.
fn sub_chars(s: &Vec<char>, from: usize, to: usize) -> (r: Vec<char>)
    requires
        from <= to <= s.len(),
    ensures
        r@ == s@.subrange(from as int, to as int),
{
    let mut r: Vec<char> = Vec::new();
    let mut k: usize = from;
    while k < to
        invariant
            from <= k <= to <= s.len(),
            r@ == s@.subrange(from as int, k as int),
        decreases to - k,
    {
        r.push(s[k]);
        k = k + 1;
        assert(r@ =~= s@.subrange(from as int, k as int));
    }
    r
}

pub(crate) fn trim_chars(s: &Vec<char>) -> (r: Vec<char>)
    ensures
        r@ == trim_end(trim_start(s@)),
{
    let mut i: usize = 0;
    assert(s@.skip(0) =~= s@);
    while i < s.len() && crate::text::is_whitespace(s[i])
        invariant
            i <= s.len(),
            trim_start(s@) == trim_start(s@.skip(i as int)),
        decreases s.len() - i,
    {
        assert(s@.skip(i as int).skip(1) =~= s@.skip(i + 1));
        i = i + 1;
    }
    assert(trim_start(s@) == s@.skip(i as int));
    let mut j: usize = s.len();
    while j > i && crate::text::is_whitespace(s[j - 1])
        invariant
            i <= j <= s.len(),
            trim_end(s@.skip(i as int)) == trim_end(s@.subrange(i as int, j as int)),
        decreases j,
    {
        assert(s@.subrange(i as int, j as int).drop_last() =~= s@.subrange(i as int, j - 1));
        j = j - 1;
    }
    assert(s@.skip(i as int) =~= s@.subrange(i as int, s.len() as int));
    sub_chars(s, i, j)
}

fn strip_prefix_chars(s: Vec<char>, p: &str) -> (r: Vec<char>)
    ensures
        r@ == strip_prefix(s@, p@),
{
    let pc = chars_of(p);
    if pc.len() > s.len() {
        return s;
    }
    let mut k: usize = 0;
    while k < pc.len()
        invariant
            pc@ == p@,
            pc.len() <= s.len(),
            k <= pc.len(),
            forall|j: int| 0 <= j < k ==> s@[j] == pc@[j],
        decreases pc.len() - k,
    {
        if s[k] != pc[k] {
            assert(s@.take(pc.len() as int)[k as int] != pc@[k as int]);
            return s;
        }
        k = k + 1;
    }
    assert(s@.take(pc.len() as int) =~= pc@);
    sub_chars(&s, pc.len(), s.len())
}

fn strip_quotes_chars(s: Vec<char>, q: char) -> (r: Vec<char>)
    ensures
        r@ == strip_quotes(s@, q),
{
    if s.len() > 2 && s[0] == q && s[s.len() - 1] == q {
        sub_chars(&s, 1, s.len() - 1)
    } else {
        s
    }
}

/// Cleans a command proposed by a language model.
pub fn clean_command(command: &str) -> (r: String)
    ensures
        r@ == cleaned(command@),
{
    let cs = chars_of(command);
    let t = trim_chars(&cs);
    let t = strip_prefix_chars(t, "$ ");
    let t = strip_prefix_chars(t, "# ");
    let t = strip_prefix_chars(t, "> ");
    let t = strip_prefix_chars(t, "bash: ");
    let t = strip_prefix_chars(t, "shell: ");
    let t = strip_prefix_chars(t, "command: ");
    let t = strip_quotes_chars(t, '"');
    let t = strip_quotes_chars(t, '\'');
    string_of(&t)
}

/// What one line typed into the interactive command helper asks for.
pub enum QueryStep {
    /// The line is "exit": leave.
    Exit,
    /// The line is blank: ask again.
    Skip,
    /// Generate a command for this request (the line, trimmed).
    Ask(String),
}

/// The step for a typed line, judged on the line without surrounding whitespace.
pub fn next_query_step(line: &str) -> (r: QueryStep)
    ensures
        trim_end(trim_start(line@)) == "exit"@ ==> r is Exit,
        trim_end(trim_start(line@)).len() == 0 ==> r is Skip,
        trim_end(trim_start(line@)) != "exit"@ && trim_end(trim_start(line@)).len() > 0 ==> (r matches QueryStep::Ask(
            q,
        ) && q@ == trim_end(trim_start(line@))),
{
    let t = trim_chars(&chars_of(line));
    let q = string_of(&t);
    proof {
        reveal_strlit("exit");
    }
    if t.len() == 0 {
        QueryStep::Skip
    } else if q == String::from_str("exit") {
        QueryStep::Exit
    } else {
        QueryStep::Ask(q)
    }
}

} // verus!
