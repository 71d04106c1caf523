//! Character-level helpers and the tokenizer.

use vstd::prelude::*;

verus! {

broadcast use vstd::string::group_string_axioms;

/// The characters of `s`, in order.
pub fn chars_of(s: &str) -> (r: Vec<char>)
    ensures
        r@ == s@,
{
    let mut r: Vec<char> = Vec::new();
    for c in it: s.chars()
        invariant
            it.seq() == s@,
            r@ == it.seq().take(it.index() as int),
    {
        r.push(c);
    }
    r
}

/// Relies on `String: FromIterator<char>`: the string holds the given characters in order.
#[verifier::external_body]
pub fn string_of(v: &Vec<char>) -> (r: String)
    ensures
        r@ == v@,
{
    v.iter().collect()
}

/// What `str::to_lowercase` makes of a string.
pub uninterp spec fn lower_of(s: Seq<char>) -> Seq<char>;

/// Whether `char::is_whitespace` holds of a character.
pub uninterp spec fn whitespace_of(c: char) -> bool;

/// Whether `char::is_alphanumeric` holds of a character.
pub uninterp spec fn alnum_of(c: char) -> bool;

/// Relies on `str::to_lowercase`: the lower-case form depends on the characters alone.
#[verifier::external_body]
pub(crate) fn to_lower(s: &str) -> (r: String)
    ensures
        r@ == lower_of(s@),
{
    s.to_lowercase()
}

/// Relies on `char::is_whitespace` (Unicode White_Space).
#[verifier::external_body]
pub(crate) fn is_whitespace(c: char) -> (r: bool)
    ensures
        r == whitespace_of(c),
{
    c.is_whitespace()
}

/// Relies on `char::is_alphanumeric` (Unicode Alphabetic or Numeric).
#[verifier::external_body]
fn is_alphanumeric(c: char) -> (r: bool)
    ensures
        r == alnum_of(c),
{
    c.is_alphanumeric()
}

/// A character that a token keeps.
pub open spec fn is_token_char(c: char) -> bool {
    alnum_of(c) || c == '_'
}

/// Left-to-right scan of `s`: the tokens finished so far, and the token being read.
/// Whitespace ends a token; a kept character extends it; any other character is dropped.
pub open spec fn scan(s: Seq<char>) -> (Seq<Seq<char>>, Seq<char>)
    decreases s.len(),
{
    if s.len() == 0 {
        (Seq::empty(), Seq::empty())
    } else {
        let prev = scan(s.drop_last());
        let c = s.last();
        if whitespace_of(c) {
            (close(prev), Seq::empty())
        } else if is_token_char(c) {
            (prev.0, prev.1.push(c))
        } else {
            prev
        }
    }
}

/// The finished tokens of a scan, with the current one appended when it is not empty.
pub open spec fn close(st: (Seq<Seq<char>>, Seq<char>)) -> Seq<Seq<char>> {
    if st.1.len() > 0 {
        st.0.push(st.1)
    } else {
        st.0
    }
}

/// The tokens of a name: its lower-case form split at whitespace, each piece reduced to its
/// alphanumeric and underscore characters, empty pieces dropped.
pub open spec fn tokens_of(s: Seq<char>) -> Seq<Seq<char>> {
    close(scan(lower_of(s)))
}

/// Splits a name into normalised tokens.
pub fn tokenize(text: &str) -> (r: Vec<String>)
    ensures
        r.deep_view() == tokens_of(text@),
{
    let lower = to_lower(text);
    let cs = chars_of(lower.as_str());
    let mut done: Vec<String> = Vec::new();
    let mut cur: Vec<char> = Vec::new();
    let mut i: usize = 0;
    while i < cs.len()
        invariant
            cs@ == lower_of(text@),
            i <= cs.len(),
            (done.deep_view(), cur@) == scan(cs@.take(i as int)),
        decreases cs.len() - i,
    {
        let c = cs[i];
        proof {
            assert(cs@.take(i + 1).drop_last() == cs@.take(i as int));
        }
        if is_whitespace(c) {
            if cur.len() > 0 {
                let t = string_of(&cur);
                done.push(t);
                assert(done.deep_view() =~= close(scan(cs@.take(i as int))));
            }
            cur = Vec::new();
        } else if is_alphanumeric(c) || c == '_' {
            cur.push(c);
        }
        i = i + 1;
    }
    if cur.len() > 0 {
        let t = string_of(&cur);
        done.push(t);
    }
    assert(cs@.take(cs.len() as int) == cs@);
    assert(done.deep_view() =~= tokens_of(text@));
    done
}

} // verus!
