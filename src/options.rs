use vstd::prelude::*;
use crate::text::{chars_of, string_of};

verus! {

/// The characters that separate option tokens.
pub open spec fn is_space(c: char) -> bool {
    c == ' ' || c == '\t' || c == '\n' || c == '\r' || c == '\x0B' || c == '\x0C'
}

/// Index of the first `=` in `t` at or after `j`, or -1 when there is none.
pub open spec fn eq_index(t: Seq<char>, j: int) -> int
    decreases t.len() - j,
{
    if j < 0 || j >= t.len() {
        -1
    } else if t[j] == '=' {
        j
    } else {
        eq_index(t, j + 1)
    }
}

/// The pair a token stands for: split at its first `=`; a token without one gives nothing.
pub open spec fn token_pairs(t: Seq<char>) -> Seq<(Seq<char>, Seq<char>)> {
    let k = eq_index(t, 0);
    if k < 0 {
        Seq::empty()
    } else {
        seq![(t.subrange(0, k), t.subrange(k + 1, t.len() as int))]
    }
}

/// The pairs of `s` from index `i` on, where `cur` is the token read so far.
pub open spec fn pairs_from(s: Seq<char>, i: int, cur: Seq<char>) -> Seq<(Seq<char>, Seq<char>)>
    decreases s.len() - i,
{
    if i < 0 || i >= s.len() {
        token_pairs(cur)
    } else if is_space(s[i]) {
        token_pairs(cur) + pairs_from(s, i + 1, Seq::empty())
    } else {
        pairs_from(s, i + 1, cur.push(s[i]))
    }
}

/// The ordered key/value pairs that option text stands for: the text is split at
/// whitespace, and each token `key=value` gives one pair; other tokens are dropped.
pub open spec fn parse_options_spec(s: Seq<char>) -> Seq<(Seq<char>, Seq<char>)> {
    pairs_from(s, 0, Seq::empty())
}

/// The view of an option list as pairs of character sequences.
pub open spec fn options_view(v: Seq<(String, String)>) -> Seq<(Seq<char>, Seq<char>)> {
    v.map_values(|p: (String, String)| (p.0@, p.1@))
}

fn is_space_exec(c: char) -> (r: bool)
    ensures
        r == is_space(c),
{
    c == ' ' || c == '\t' || c == '\n' || c == '\r' || c == '\x0B' || c == '\x0C'
}

fn push_token(out: &mut Vec<(String, String)>, t: &Vec<char>)
    ensures
        options_view(final(out)@) == options_view(old(out)@) + token_pairs(t@),
{
    let mut k: usize = 0;
    while k < t.len() && t[k] != '='
        invariant
            k <= t@.len(),
            forall|j: int| 0 <= j < k ==> t@[j] != '=',
            eq_index(t@, 0) == eq_index(t@, k as int),
        decreases t@.len() - k,
    {
        k = k + 1;
    }
    if k < t.len() {
        let key = string_of(t, 0, k);
        let value = string_of(t, k + 1, t.len());
        assert(eq_index(t@, k as int) == k as int);
        out.push((key, value));
        assert(options_view(out@)[old(out)@.len() as int] == (key@, value@));
        assert(options_view(out@) =~= options_view(old(out)@) + token_pairs(t@));
    } else {
        assert(options_view(out@) =~= options_view(old(out)@) + token_pairs(t@));
    }
}

/// Parses option text into ordered `(key, value)` pairs. Tokens are separated by
/// whitespace; a token is split at its first `=`; a token with no `=` is dropped.
pub fn parse_options(raw: &str) -> (r: Vec<(String, String)>)
    ensures
        options_view(r@) == parse_options_spec(raw@),
{
    let s = chars_of(raw);
    let mut out: Vec<(String, String)> = Vec::new();
    let mut cur: Vec<char> = Vec::new();
    let mut i: usize = 0;
    while i < s.len()
        invariant
            i <= s@.len(),
            s@ == raw@,
            options_view(out@) + pairs_from(s@, i as int, cur@) == parse_options_spec(raw@),
        decreases s@.len() - i,
    {
        let c = s[i];
        if is_space_exec(c) {
            let ghost before = options_view(out@);
            push_token(&mut out, &cur);
            assert(options_view(out@) + pairs_from(s@, i + 1, Seq::empty()) =~= before
                + pairs_from(s@, i as int, cur@));
            cur = Vec::new();
        } else {
            cur.push(c);
        }
        i = i + 1;
    }
    push_token(&mut out, &cur);
    out
}

} // verus!
