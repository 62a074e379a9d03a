use vstd::prelude::*;
use crate::options::{options_view, parse_options, parse_options_spec};
use crate::text::{chars_of, occurs_at, occurs_at_exec, string_of};

verus! {

/// The text that opens an embed marker: `{% embed `.
pub open spec fn open_tag() -> Seq<char> {
    seq!['{', '%', ' ', 'e', 'm', 'b', 'e', 'd', ' ']
}

/// The text that closes an embed marker, after its separating space: `%}`.
pub open spec fn close_tag() -> Seq<char> {
    seq!['%', '}']
}

/// Characters allowed in an app name: ASCII letters and digits, `_` and `-`.
pub open spec fn is_app_char(c: char) -> bool {
    ('a' <= c && c <= 'z') || ('A' <= c && c <= 'Z') || ('0' <= c && c <= '9') || c == '_'
        || c == '-'
}

/// The end of the run of app-name characters that starts at `j`.
pub open spec fn app_end(s: Seq<char>, j: int) -> int
    decreases s.len() - j,
{
    if 0 <= j < s.len() && is_app_char(s[j]) {
        app_end(s, j + 1)
    } else {
        j
    }
}

/// The first index at or after `j` where `%}` occurs, or `s.len()` when there is none.
pub open spec fn first_close(s: Seq<char>, j: int) -> int
    decreases s.len() - j,
{
    if j < 0 || j + 2 > s.len() {
        s.len() as int
    } else if occurs_at(s, j, close_tag()) {
        j
    } else {
        first_close(s, j + 1)
    }
}

/// The marker that starts at index `i`, if one does: `{% embed `, an app name of
/// one or more app-name characters (as many as there are), option text holding no
/// `%}`, then ` %}`. The result gives the end of the app name, the end of the
/// option text and the end of the marker.
pub open spec fn marker_at(s: Seq<char>, i: int) -> Option<(int, int, int)> {
    if occurs_at(s, i, open_tag()) {
        let a = i + 9;
        let p = app_end(s, a);
        let q = first_close(s, p);
        if p > a && q > p && s.len() - q >= 2 && s[q - 1] == ' ' {
            Some((p, q - 1, q + 2))
        } else {
            None
        }
    } else {
        None
    }
}

/// The markers of `s` from index `i` on, found left to right without overlap,
/// each as its app name and its raw option text.
pub open spec fn markers_from(s: Seq<char>, i: int) -> Seq<(Seq<char>, Seq<char>)>
    decreases s.len() - i,
{
    if i < 0 || i >= s.len() {
        Seq::empty()
    } else {
        match marker_at(s, i) {
            Some((p, o, e)) => seq![(s.subrange(i + 9, p), s.subrange(p, o))] + markers_from(
                s,
                e,
            ),
            None => markers_from(s, i + 1),
        }
    }
}

/// The markers of `s`, in order.
pub open spec fn markers(s: Seq<char>) -> Seq<(Seq<char>, Seq<char>)> {
    markers_from(s, 0)
}

/// `s` from index `i` on with each marker replaced by the next text of `r`, in
/// order; the replacement texts are not scanned again.
pub open spec fn expand_from(s: Seq<char>, i: int, r: Seq<Seq<char>>) -> Seq<char>
    decreases s.len() - i,
{
    if i < 0 || i >= s.len() {
        Seq::empty()
    } else {
        match marker_at(s, i) {
            Some((p, o, e)) => r[0] + expand_from(s, e, r.drop_first()),
            None => seq![s[i]] + expand_from(s, i + 1, r),
        }
    }
}

/// `s` with its markers replaced, in order, by the texts of `r`.
pub open spec fn expand(s: Seq<char>, r: Seq<Seq<char>>) -> Seq<char> {
    expand_from(s, 0, r)
}

/// One call of the template renderer: the template name and its ordered options.
pub struct TemplateCall {
    pub name: String,
    pub options: Vec<(String, String)>,
}

/// What a call stands for: its template name and its options as pairs of sequences.
pub open spec fn call_view(c: TemplateCall) -> (Seq<char>, Seq<(Seq<char>, Seq<char>)>) {
    (c.name@, options_view(c.options@))
}

/// The view of a list of strings.
pub open spec fn strings_view(v: Seq<String>) -> Seq<Seq<char>> {
    v.map_values(|x: String| x@)
}

fn app_end_exec(s: &Vec<char>, j: usize) -> (r: usize)
    requires
        j <= s@.len(),
    ensures
        r == app_end(s@, j as int),
        j <= r <= s@.len(),
{
    let mut k = j;
    while k < s.len() && (('a' <= s[k] && s[k] <= 'z') || ('A' <= s[k] && s[k] <= 'Z') || ('0'
        <= s[k] && s[k] <= '9') || s[k] == '_' || s[k] == '-')
        invariant
            j <= k <= s@.len(),
            app_end(s@, j as int) == app_end(s@, k as int),
        decreases s@.len() - k,
    {
        k = k + 1;
    }
    k
}

fn first_close_exec(s: &Vec<char>, j: usize, close: &Vec<char>) -> (r: usize)
    requires
        j <= s@.len(),
        close@ == close_tag(),
    ensures
        r == first_close(s@, j as int),
        r <= s@.len(),
{
    let mut k = j;
    loop
        invariant
            j <= k <= s@.len(),
            close@ == close_tag(),
            first_close(s@, j as int) == first_close(s@, k as int),
        decreases s@.len() - k,
    {
        if s.len() - k < 2 {
            return s.len();
        }
        if occurs_at_exec(s, k, close) {
            return k;
        }
        k = k + 1;
    }
}

fn open_tag_exec() -> (r: Vec<char>)
    ensures
        r@ == open_tag(),
{
    let r = vec!['{', '%', ' ', 'e', 'm', 'b', 'e', 'd', ' '];
    assert(r@ =~= open_tag());
    r
}

fn close_tag_exec() -> (r: Vec<char>)
    ensures
        r@ == close_tag(),
{
    let r = vec!['%', '}'];
    assert(r@ =~= close_tag());
    r
}

fn marker_at_exec(s: &Vec<char>, i: usize, open: &Vec<char>, close: &Vec<char>) -> (r: Option<
    (usize, usize, usize),
>)
    requires
        i <= s@.len(),
        open@ == open_tag(),
        close@ == close_tag(),
    ensures
        match r {
            Some((p, o, e)) => marker_at(s@, i as int) == Some((p as int, o as int, e as int)),
            None => marker_at(s@, i as int) is None,
        },
{
    if !occurs_at_exec(s, i, open) {
        return None;
    }
    let n = s.len();
    assert(open_tag().len() == 9);
    assert(i + 9 <= n);
    let a = i + 9;
    let p = app_end_exec(s, a);
    let q = first_close_exec(s, p, close);
    if p > a && q > p && s.len() - q >= 2 && s[q - 1] == ' ' {
        Some((p, q - 1, q + 2))
    } else {
        None
    }
}

/// The template calls that the markers of `s` ask for, in order.
pub open spec fn marker_calls(s: Seq<char>) -> Seq<(Seq<char>, Seq<(Seq<char>, Seq<char>)>)> {
    markers(s).map_values(|m: (Seq<char>, Seq<char>)| (m.0, parse_options_spec(m.1)))
}

/// Finds the embed markers of `text`, left to right and without overlap, and gives
/// for each the template call it asks for: its app name and its parsed options.
pub fn find_embeds(text: &str) -> (r: Vec<TemplateCall>)
    ensures
        r@.map_values(|c: TemplateCall| call_view(c)) == marker_calls(text@),
        r@.len() == markers(text@).len(),
        forall|k: int|
            0 <= k < r@.len() ==> #[trigger] call_view(r@[k]) == (
                markers(text@)[k].0,
                parse_options_spec(markers(text@)[k].1),
            ),
{
    let s = chars_of(text);
    let open = open_tag_exec();
    let close = close_tag_exec();
    let mut out: Vec<TemplateCall> = Vec::new();
    let ghost mut found: Seq<(Seq<char>, Seq<char>)> = Seq::empty();
    let mut i: usize = 0;
    while i < s.len()
        invariant
            i <= s@.len(),
            s@ == text@,
            open@ == open_tag(),
            close@ == close_tag(),
            markers(s@) == found + markers_from(s@, i as int),
            out@.len() == found.len(),
            forall|k: int|
                0 <= k < out@.len() ==> #[trigger] call_view(out@[k]) == (
                    found[k].0,
                    parse_options_spec(found[k].1),
                ),
        decreases s@.len() - i,
    {
        match marker_at_exec(&s, i, &open, &close) {
            Some((p, o, e)) => {
                let app = string_of(&s, i + 9, p);
                let raw = string_of(&s, p, o);
                let options = parse_options(raw.as_str());
                proof {
                    let m = (s@.subrange(i + 9, p as int), s@.subrange(p as int, o as int));
                    assert(found.push(m) + markers_from(s@, e as int) =~= found + markers_from(
                        s@,
                        i as int,
                    ));
                    found = found.push(m);
                }
                out.push(TemplateCall { name: app, options });
                i = e;
            },
            None => {
                i = i + 1;
            },
        }
    }
    assert(found + markers_from(s@, i as int) =~= found);
    assert(out@.map_values(|c: TemplateCall| call_view(c)) =~= marker_calls(text@));
    out
}

/// Replaces each embed marker of `text`, in order, by the matching text of
/// `rendered` (one per marker, as `find_embeds` lists them). The replacement texts
/// are not scanned again, and the text between markers is kept as it is.
pub fn expand_embeds(text: &str, rendered: &Vec<String>) -> (r: String)
    requires
        rendered@.len() == markers(text@).len(),
    ensures
        r@ == expand(text@, strings_view(rendered@)),
{
    let s = chars_of(text);
    let open = open_tag_exec();
    let close = close_tag_exec();
    let ghost rs = strings_view(rendered@);
    let mut out: Vec<char> = Vec::new();
    let mut i: usize = 0;
    let mut k: usize = 0;
    let n_r = rendered.len();
    assert(rs.skip(0) =~= rs);
    assert(out@ + expand_from(s@, 0, rs) =~= expand_from(s@, 0, rs));
    while i < s.len()
        invariant
            i <= s@.len(),
            s@ == text@,
            open@ == open_tag(),
            close@ == close_tag(),
            rs == strings_view(rendered@),
            k <= rendered@.len(),
            n_r == rendered@.len(),
            markers_from(s@, i as int).len() == rendered@.len() - k,
            expand(s@, rs) == out@ + expand_from(s@, i as int, rs.skip(k as int)),
        decreases s@.len() - i,
    {
        match marker_at_exec(&s, i, &open, &close) {
            Some((p, o, e)) => {
                assert(markers_from(s@, i as int).len() == markers_from(s@, e as int).len() + 1);
                let mut piece = chars_of(rendered[k].as_str());
                proof {
                    assert(rs.skip(k as int).drop_first() =~= rs.skip(k + 1));
                    assert(rs.skip(k as int)[0] == piece@);
                    assert(out@ + piece@ + expand_from(s@, e as int, rs.skip(k + 1)) =~= out@ + (
                    piece@ + expand_from(s@, e as int, rs.skip(k + 1))));
                }
                out.append(&mut piece);
                i = e;
                assert(k < n_r);
                k = k + 1;
            },
            None => {
                proof {
                    assert(out@.push(s@[i as int]) + expand_from(s@, i + 1, rs.skip(k as int))
                        =~= out@ + (seq![s@[i as int]] + expand_from(
                        s@,
                        i + 1,
                        rs.skip(k as int),
                    )));
                }
                out.push(s[i]);
                i = i + 1;
            },
        }
    }
    assert(out@ + expand_from(s@, i as int, rs.skip(k as int)) =~= out@);
    string_of(&out, 0, out.len())
}

} // verus!
