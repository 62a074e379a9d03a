use vstd::prelude::*;
use crate::text::{chars_of, occurs_at, occurs_at_exec, string_of};

verus! {

/// The text that opens an ignore region: `<!-- embed ignore begin -->`.
pub open spec fn begin_tag() -> Seq<char> {
    seq![
        '<', '!', '-', '-', ' ', 'e', 'm', 'b', 'e', 'd', ' ', 'i', 'g', 'n', 'o', 'r', 'e', ' ',
        'b', 'e', 'g', 'i', 'n', ' ', '-', '-', '>',
    ]
}

/// The text that closes an ignore region: `<!-- embed ignore end -->`.
pub open spec fn end_tag() -> Seq<char> {
    seq![
        '<', '!', '-', '-', ' ', 'e', 'm', 'b', 'e', 'd', ' ', 'i', 'g', 'n', 'o', 'r', 'e', ' ',
        'e', 'n', 'd', ' ', '-', '-', '>',
    ]
}

/// The first candidate token for the ignore region: `EMBED_IGNORE_0`.
pub open spec fn placeholder_base() -> Seq<char> {
    seq!['E', 'M', 'B', 'E', 'D', '_', 'I', 'G', 'N', 'O', 'R', 'E', '_', '0']
}

/// The candidate token of rank `k`: the first one followed by `k` underscores.
pub open spec fn placeholder_of(k: nat) -> Seq<char> {
    placeholder_base() + Seq::new(k, |_i: int| '_')
}

/// The rank of the first candidate token from rank `k` on that does not occur in `s`.
pub open spec fn free_rank(s: Seq<char>, k: nat) -> nat
    decreases s.len() + 1 - k,
{
    if k > s.len() || find_from(s, placeholder_of(k), 0) < 0 {
        k
    } else {
        free_rank(s, k + 1)
    }
}

/// The token that stands in for the ignore region of `s` while markers are
/// expanded: the first candidate that does not occur in `s`.
pub open spec fn placeholder(s: Seq<char>) -> Seq<char> {
    placeholder_of(free_rank(s, 0))
}

/// The first index at or after `i` where `p` occurs in `s`, or -1.
pub open spec fn find_from(s: Seq<char>, p: Seq<char>, i: int) -> int
    decreases s.len() - i,
{
    if i < 0 || i >= s.len() || i + p.len() > s.len() {
        -1
    } else if occurs_at(s, i, p) {
        i
    } else {
        find_from(s, p, i + 1)
    }
}

/// The last index below `j` where `p` occurs in `s`, or -1.
pub open spec fn rfind_below(s: Seq<char>, p: Seq<char>, j: int) -> int
    decreases j,
{
    if j <= 0 {
        -1
    } else if occurs_at(s, j - 1, p) {
        j - 1
    } else {
        rfind_below(s, p, j - 1)
    }
}

/// The ignore region of `s`, as its start and end: from the first begin tag to
/// the end of the last end tag that starts after it. One region at most is found,
/// so several begin/end pairs are covered by one region that spans them all.
pub open spec fn ignore_span(s: Seq<char>) -> Option<(int, int)> {
    let b = find_from(s, begin_tag(), 0);
    let e = rfind_below(s, end_tag(), s.len() as int);
    if b >= 0 && e >= b + begin_tag().len() {
        Some((b, e + end_tag().len()))
    } else {
        None
    }
}

/// The text with its ignore region replaced by the placeholder, and the list of
/// `(placeholder, region)` records (empty when there is no region).
pub open spec fn protect_spec(s: Seq<char>) -> (Seq<char>, Seq<(Seq<char>, Seq<char>)>) {
    match ignore_span(s) {
        Some((b, e)) => (
            s.subrange(0, b) + placeholder(s) + s.subrange(e, s.len() as int),
            seq![(placeholder(s), s.subrange(b, e))],
        ),
        None => (s, Seq::empty()),
    }
}

/// `s` from index `i` on with each occurrence of `p`, left to right and without
/// overlap, replaced by `w`.
pub open spec fn replace_from(s: Seq<char>, i: int, p: Seq<char>, w: Seq<char>) -> Seq<char>
    decreases s.len() - i,
{
    if i < 0 || i >= s.len() {
        Seq::empty()
    } else if p.len() > 0 && occurs_at(s, i, p) {
        w + replace_from(s, i + p.len(), p, w)
    } else {
        seq![s[i]] + replace_from(s, i + 1, p, w)
    }
}

/// `s` with every occurrence of `p` replaced by `w`.
pub open spec fn replace_all(s: Seq<char>, p: Seq<char>, w: Seq<char>) -> Seq<char> {
    replace_from(s, 0, p, w)
}

/// `s` with each record's placeholder replaced by its text, one record after another.
pub open spec fn restore_spec(s: Seq<char>, sections: Seq<(Seq<char>, Seq<char>)>) -> Seq<char>
    decreases sections.len(),
{
    if sections.len() == 0 {
        s
    } else {
        restore_spec(replace_all(s, sections[0].0, sections[0].1), sections.drop_first())
    }
}

/// The view of a list of string pairs.
pub open spec fn pairs_view(v: Seq<(String, String)>) -> Seq<(Seq<char>, Seq<char>)> {
    v.map_values(|p: (String, String)| (p.0@, p.1@))
}

fn tag_exec(begin: bool) -> (r: Vec<char>)
    ensures
        r@ == (if begin {
            begin_tag()
        } else {
            end_tag()
        }),
{
    if begin {
        let r = vec![
            '<', '!', '-', '-', ' ', 'e', 'm', 'b', 'e', 'd', ' ', 'i', 'g', 'n', 'o', 'r', 'e', ' ',
            'b', 'e', 'g', 'i', 'n', ' ', '-', '-', '>',
        ];
        assert(r@ =~= begin_tag());
        r
    } else {
        let r = vec![
            '<', '!', '-', '-', ' ', 'e', 'm', 'b', 'e', 'd', ' ', 'i', 'g', 'n', 'o', 'r', 'e', ' ',
            'e', 'n', 'd', ' ', '-', '-', '>',
        ];
        assert(r@ =~= end_tag());
        r
    }
}

fn placeholder_exec(s: &Vec<char>) -> (r: Vec<char>)
    ensures
        r@ == placeholder(s@),
{
    let mut r = vec!['E', 'M', 'B', 'E', 'D', '_', 'I', 'G', 'N', 'O', 'R', 'E', '_', '0'];
    assert(r@ =~= placeholder_of(0));
    let mut k: usize = 0;
    while k <= s.len() && find_from_exec(s, &r).is_some()
        invariant
            k <= s@.len() + 1,
            r@ == placeholder_of(k as nat),
            free_rank(s@, 0) == free_rank(s@, k as nat),
        decreases s@.len() + 1 - k,
    {
        r.push('_');
        k = k + 1;
        assert(r@ =~= placeholder_of(k as nat));
    }
    r
}

pub(crate) fn find_from_exec(s: &Vec<char>, p: &Vec<char>) -> (r: Option<usize>)
    ensures
        match r {
            Some(i) => find_from(s@, p@, 0) == i && occurs_at(s@, i as int, p@),
            None => find_from(s@, p@, 0) == -1,
        },
{
    let mut i: usize = 0;
    loop
        invariant
            i <= s@.len(),
            find_from(s@, p@, 0) == find_from(s@, p@, i as int),
        decreases s@.len() - i,
    {
        if i >= s.len() || p.len() > s.len() - i {
            return None;
        }
        if occurs_at_exec(s, i, p) {
            return Some(i);
        }
        i = i + 1;
    }
}

fn rfind_exec(s: &Vec<char>, p: &Vec<char>) -> (r: Option<usize>)
    ensures
        match r {
            Some(j) => rfind_below(s@, p@, s@.len() as int) == j && occurs_at(s@, j as int, p@),
            None => rfind_below(s@, p@, s@.len() as int) == -1,
        },
{
    let mut j: usize = s.len();
    loop
        invariant
            j <= s@.len(),
            rfind_below(s@, p@, s@.len() as int) == rfind_below(s@, p@, j as int),
        decreases j,
    {
        if j == 0 {
            return None;
        }
        if occurs_at_exec(s, j - 1, p) {
            return Some(j - 1);
        }
        j = j - 1;
    }
}

/// Cuts the ignore region out of `text`: the region (from the first begin tag to
/// the end of the last end tag after it) is replaced by a placeholder, and the
/// result lists the `(placeholder, region)` record, or none where there is no region.
pub fn protect_ignored(text: &str) -> (r: (String, Vec<(String, String)>))
    ensures
        (r.0@, pairs_view(r.1@)) == protect_spec(text@),
{
    let s = chars_of(text);
    let begin = tag_exec(true);
    let end = tag_exec(false);
    let fb = find_from_exec(&s, &begin);
    let fe = rfind_exec(&s, &end);
    let n = s.len();
    let span: Option<(usize, usize)> = match (fb, fe) {
        (Some(b), Some(e)) => {
            if e >= b && e - b >= 27 {
                Some((b, e + 25))
            } else {
                None
            }
        },
        _ => None,
    };
    assert(begin_tag().len() == 27 && end_tag().len() == 25);
    if let Some((b, e)) = span {
        assert(ignore_span(s@) == Some((b as int, e as int)));
        let ph = placeholder_exec(&s);
        let mut out: Vec<char> = Vec::new();
        let mut k: usize = 0;
        while k < b
            invariant
                k <= b <= s@.len(),
                out@ == s@.subrange(0, k as int),
            decreases b - k,
        {
            out.push(s[k]);
            k = k + 1;
            assert(out@ =~= s@.subrange(0, k as int));
        }
        let mut ph2 = ph.clone();
        out.append(&mut ph2);
        let mut k: usize = e;
        let ghost mid = out@;
        while k < s.len()
            invariant
                e <= k <= s@.len(),
                out@ == mid + s@.subrange(e as int, k as int),
            decreases s@.len() - k,
        {
            out.push(s[k]);
            k = k + 1;
            assert(out@ =~= mid + s@.subrange(e as int, k as int));
        }
        let region = string_of(&s, b, e);
        let key = string_of(&ph, 0, ph.len());
        assert(ph@.subrange(0, ph@.len() as int) =~= ph@);
        let mut sections: Vec<(String, String)> = Vec::new();
        sections.push((key, region));
        assert(pairs_view(sections@)[0] == (placeholder(s@), s@.subrange(b as int, e as int)));
        assert(pairs_view(sections@) =~= seq![(placeholder(s@), s@.subrange(b as int, e as int))]);
        assert(out@.subrange(0, out@.len() as int) =~= out@);
        assert(out@ =~= s@.subrange(0, b as int) + placeholder(s@) + s@.subrange(e as int, s@.len() as int));
        (string_of(&out, 0, out.len()), sections)
    } else {
        assert(ignore_span(s@) is None);
        let empty: Vec<(String, String)> = Vec::new();
        assert(pairs_view(empty@) =~= Seq::empty());
        assert(s@.subrange(0, s@.len() as int) =~= s@);
        (string_of(&s, 0, s.len()), empty)
    }
}

pub(crate) fn replace_all_exec(s: &Vec<char>, p: &Vec<char>, w: &Vec<char>) -> (r: Vec<char>)
    ensures
        r@ == replace_all(s@, p@, w@),
{
    let mut out: Vec<char> = Vec::new();
    let mut i: usize = 0;
    assert(out@ + replace_from(s@, 0, p@, w@) =~= replace_from(s@, 0, p@, w@));
    while i < s.len()
        invariant
            i <= s@.len(),
            replace_all(s@, p@, w@) == out@ + replace_from(s@, i as int, p@, w@),
        decreases s@.len() - i,
    {
        if p.len() > 0 && occurs_at_exec(s, i, p) {
            let mut piece = w.clone();
            assert(out@ + piece@ + replace_from(s@, i + p@.len(), p@, w@) =~= out@ + (w@
                + replace_from(s@, i + p@.len(), p@, w@)));
            out.append(&mut piece);
            i = i + p.len();
        } else {
            assert(out@.push(s@[i as int]) + replace_from(s@, i + 1, p@, w@) =~= out@ + (seq![
                s@[i as int],
            ] + replace_from(s@, i + 1, p@, w@)));
            out.push(s[i]);
            i = i + 1;
        }
    }
    assert(out@ + replace_from(s@, i as int, p@, w@) =~= out@);
    out
}

/// Puts ignored text back: each record's placeholder in `text` is replaced by the
/// record's text, one record after another.
pub fn restore_ignored(text: &str, sections: &Vec<(String, String)>) -> (r: String)
    ensures
        r@ == restore_spec(text@, pairs_view(sections@)),
{
    let mut cur = chars_of(text);
    let mut k: usize = 0;
    assert(pairs_view(sections@).skip(0) =~= pairs_view(sections@));
    while k < sections.len()
        invariant
            k <= sections@.len(),
            restore_spec(text@, pairs_view(sections@)) == restore_spec(
                cur@,
                pairs_view(sections@).skip(k as int),
            ),
        decreases sections@.len() - k,
    {
        let p = chars_of(sections[k].0.as_str());
        let w = chars_of(sections[k].1.as_str());
        let next = replace_all_exec(&cur, &p, &w);
        assert(pairs_view(sections@).skip(k as int).drop_first() =~= pairs_view(sections@).skip(
            k + 1,
        ));
        cur = next;
        k = k + 1;
    }
    string_of(&cur, 0, cur.len())
}

} // verus!
