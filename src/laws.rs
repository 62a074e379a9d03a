use vstd::prelude::*;
use crate::ignore::{
    begin_tag, end_tag, find_from, free_rank, ignore_span, placeholder, placeholder_base,
    placeholder_of, protect_spec, replace_all,
    replace_from, restore_spec, rfind_below,
};
use crate::marker::{
    app_end, close_tag, expand, expand_from, first_close, is_app_char, marker_at, markers,
    markers_from, open_tag,
};
use crate::pipeline::{chapter_calls_spec, chapter_output, global_calls_spec, Settings};
use crate::text::occurs_at;

verus! {

proof fn lemma_expand_without_markers(s: Seq<char>, i: int, r: Seq<Seq<char>>)
    requires
        0 <= i <= s.len(),
        markers_from(s, i).len() == 0,
    ensures
        expand_from(s, i, r) == s.subrange(i, s.len() as int),
    decreases s.len() - i,
{
    if i < s.len() {
        match marker_at(s, i) {
            Some((p, o, e)) => {},
            None => {
                lemma_expand_without_markers(s, i + 1, r);
                assert(seq![s[i]] + s.subrange(i + 1, s.len() as int) =~= s.subrange(
                    i,
                    s.len() as int,
                ));
            },
        }
    } else {
        assert(s.subrange(i, s.len() as int) =~= Seq::<char>::empty());
    }
}

/// With no marker in `s`, expanding leaves `s` as it is.
proof fn lemma_expand_identity(s: Seq<char>, r: Seq<Seq<char>>)
    requires
        markers(s).len() == 0,
    ensures
        expand(s, r) == s,
{
    lemma_expand_without_markers(s, 0, r);
    assert(s.subrange(0, s.len() as int) =~= s);
}

/// A chapter with no embed marker and no ignore region, under settings with every
/// gate off, asks for no template and comes out unchanged.
pub proof fn law_plain_text_unchanged(s: Seq<char>, st: Settings)
    requires
        markers(s).len() == 0,
        ignore_span(s) is None,
        !st.scroll_to_top,
        !st.announcement_banner,
        !st.giscus,
        !st.footer,
    ensures
        chapter_calls_spec(s, st).len() == 0,
        chapter_output(s, Seq::empty()) == s,
{
    let r = Seq::<Seq<char>>::empty();
    lemma_expand_identity(s, r.take(0));
    assert(r.skip(0).flatten() =~= Seq::<char>::empty());
    assert(s + Seq::<char>::empty() =~= s);
}

/// Re-running the pipeline is not idempotent: on a chapter with no marker and no
/// ignore region the rendered templates are appended, and running again on the
/// result (itself free of markers and ignore regions) appends them once more.
pub proof fn law_appending_twice(s: Seq<char>, r1: Seq<Seq<char>>, r2: Seq<Seq<char>>)
    requires
        markers(s).len() == 0,
        ignore_span(s) is None,
        markers(s + r1.flatten()).len() == 0,
        ignore_span(s + r1.flatten()) is None,
    ensures
        chapter_output(s, r1) == s + r1.flatten(),
        chapter_output(chapter_output(s, r1), r2) == s + r1.flatten() + r2.flatten(),
{
    lemma_plain_output(s, r1);
    lemma_plain_output(s + r1.flatten(), r2);
}

/// Expanding again changes nothing once the expanded text holds no marker: the
/// replacement texts are never scanned for markers of their own.
pub proof fn law_expansion_stable(s: Seq<char>, r1: Seq<Seq<char>>, r2: Seq<Seq<char>>)
    requires
        markers(expand(s, r1)).len() == 0,
    ensures
        markers(expand(s, r1)) == Seq::<(Seq<char>, Seq<char>)>::empty(),
        expand(expand(s, r1), r2) == expand(s, r1),
{
    lemma_expand_identity(expand(s, r1), r2);
    assert(markers(expand(s, r1)) =~= Seq::<(Seq<char>, Seq<char>)>::empty());
}

proof fn lemma_plain_output(s: Seq<char>, r: Seq<Seq<char>>)
    requires
        markers(s).len() == 0,
        ignore_span(s) is None,
    ensures
        chapter_output(s, r) == s + r.flatten(),
{
    lemma_expand_identity(s, r.take(0));
    assert(r.skip(0) =~= r);
}

/// With every gate on, an empty chapter asks for the four appended templates in
/// the fixed order scroll-to-top, announcement banner, giscus, footer, and comes
/// out as their rendered texts one after another in that order.
pub proof fn law_all_gates_on_empty_chapter(st: Settings, r: Seq<Seq<char>>)
    requires
        st.scroll_to_top,
        st.announcement_banner,
        st.giscus,
        st.footer,
        r.len() == 4,
    ensures
        chapter_calls_spec(Seq::empty(), st) == global_calls_spec(st),
        global_calls_spec(st).len() == 4,
        global_calls_spec(st)[0].0 == "scroll-to-top"@,
        global_calls_spec(st)[1].0 == "announcement-banner"@,
        global_calls_spec(st)[2].0 == "giscus"@,
        global_calls_spec(st)[3].0 == "footer"@,
        chapter_output(Seq::empty(), r) == r[0] + r[1] + r[2] + r[3],
{
    let s = Seq::<char>::empty();
    assert(find_from(s, open_tag(), 0) == -1);
    assert(chapter_calls_spec(s, st) =~= global_calls_spec(st));
    assert(r.skip(0) =~= r);
    assert(r =~= seq![r[0]].push(r[1]).push(r[2]).push(r[3]));
    seq![r[0]].lemma_flatten_one_element();
    seq![r[0]].lemma_flatten_push(r[1]);
    seq![r[0]].push(r[1]).lemma_flatten_push(r[2]);
    seq![r[0]].push(r[1]).push(r[2]).lemma_flatten_push(r[3]);
    assert(Seq::<char>::empty() + r.flatten() =~= r.flatten());
}

proof fn lemma_rfind_tail(s: Seq<char>, p: Seq<char>, j: int)
    requires
        p.len() > 0,
        s.len() - p.len() + 1 <= j <= s.len(),
    ensures
        rfind_below(s, p, j) == rfind_below(s, p, s.len() - p.len() + 1),
    decreases j - (s.len() - p.len() + 1),
{
    if j > s.len() - p.len() + 1 {
        lemma_rfind_tail(s, p, j - 1);
    }
}

proof fn lemma_placeholder_has_no_marker(k: nat, i: int)
    requires
        0 <= i,
    ensures
        markers_from(placeholder_of(k), i).len() == 0,
    decreases placeholder_of(k).len() - i,
{
    let ph = placeholder_of(k);
    if i < ph.len() {
        if occurs_at(ph, i, open_tag()) {
            assert(ph.subrange(i, i + 9)[0] == open_tag()[0]);
            if i < 14 {
                assert(ph[i] == placeholder_base()[i]);
            } else {
                assert(ph[i] == '_');
            }
        }
        lemma_placeholder_has_no_marker(k, i + 1);
    }
}

/// A chapter that is one ignore region, whatever it holds (marker-like text, or
/// several begin/end pairs), comes out unchanged under settings with every gate
/// off: nothing inside it is expanded, and no placeholder is left behind.
pub proof fn law_ignored_region_kept(t: Seq<char>, st: Settings)
    requires
        !st.scroll_to_top,
        !st.announcement_banner,
        !st.giscus,
        !st.footer,
    ensures
        chapter_calls_spec(begin_tag() + t + end_tag(), st).len() == 0,
        chapter_output(begin_tag() + t + end_tag(), Seq::empty()) == begin_tag() + t + end_tag(),
{
    let s = begin_tag() + t + end_tag();
    let ph = placeholder(s);
    lemma_region_protected(t);
    lemma_placeholder_has_no_marker(free_rank(s, 0), 0);
    let r = Seq::<Seq<char>>::empty();
    lemma_expand_identity(ph, r.take(0));
    lemma_placeholder_restored(free_rank(s, 0), s);
    assert(r.skip(0).flatten() =~= Seq::<char>::empty());
    assert(s + Seq::<char>::empty() =~= s);
}

proof fn lemma_region_protected(t: Seq<char>)
    ensures
        protect_spec(begin_tag() + t + end_tag()) == (
            placeholder(begin_tag() + t + end_tag()),
            seq![(placeholder(begin_tag() + t + end_tag()), begin_tag() + t + end_tag())],
        ),
{
    let s = begin_tag() + t + end_tag();
    let n = s.len() as int;
    let ph = placeholder(s);
    assert(s.subrange(0, 27) =~= begin_tag());
    assert(find_from(s, begin_tag(), 0) == 0);
    assert(s.subrange(n - 25, n) =~= end_tag());
    lemma_rfind_tail(s, end_tag(), n);
    assert(rfind_below(s, end_tag(), n - 24) == n - 25);
    assert(ignore_span(s) == Some((0int, n)));
    assert(s.subrange(0, 0) + ph + s.subrange(n, n) =~= ph);
    assert(s.subrange(0, n) =~= s);
}

proof fn lemma_placeholder_restored(k: nat, s: Seq<char>)
    ensures
        restore_spec(placeholder_of(k), seq![(placeholder_of(k), s)]) == s,
{
    let ph = placeholder_of(k);
    assert(ph.subrange(0, ph.len() as int) =~= ph);
    assert(replace_from(ph, ph.len() as int, ph, s) =~= Seq::<char>::empty());
    assert(replace_all(ph, ph, s) =~= s);
    let sections = seq![(ph, s)];
    assert(sections.drop_first() =~= Seq::<(Seq<char>, Seq<char>)>::empty());
    assert(restore_spec(s, Seq::empty()) == s);
    assert(restore_spec(ph, sections) == restore_spec(
        replace_all(ph, sections[0].0, sections[0].1),
        sections.drop_first(),
    ));
}

/// A chapter made of two ignore regions and the text between them comes out
/// unchanged under settings with every gate off: both regions keep their literal
/// text and no placeholder is left behind.
pub proof fn law_two_ignored_regions_kept(
    t1: Seq<char>,
    u: Seq<char>,
    t2: Seq<char>,
    st: Settings,
)
    requires
        !st.scroll_to_top,
        !st.announcement_banner,
        !st.giscus,
        !st.footer,
    ensures
        chapter_output(
            begin_tag() + t1 + end_tag() + u + begin_tag() + t2 + end_tag(),
            Seq::empty(),
        ) == begin_tag() + t1 + end_tag() + u + begin_tag() + t2 + end_tag(),
{
    let t = t1 + end_tag() + u + begin_tag() + t2;
    law_ignored_region_kept(t, st);
    assert(begin_tag() + t + end_tag() =~= begin_tag() + t1 + end_tag() + u + begin_tag() + t2
        + end_tag());
}

proof fn lemma_app_end(s: Seq<char>, j: int, p: int)
    requires
        0 <= j <= p <= s.len(),
        forall|k: int| j <= k < p ==> is_app_char(#[trigger] s[k]),
        p == s.len() || !is_app_char(s[p]),
    ensures
        app_end(s, j) == p,
    decreases p - j,
{
    if j < p {
        lemma_app_end(s, j + 1, p);
    }
}

proof fn lemma_first_close(s: Seq<char>, j: int, q: int)
    requires
        0 <= j <= q,
        occurs_at(s, q, close_tag()),
        forall|k: int| j <= k < q ==> !occurs_at(s, k, close_tag()),
    ensures
        first_close(s, j) == q,
    decreases q - j,
{
    if j < q {
        lemma_first_close(s, j + 1, q);
    }
}

/// A chapter that is exactly one well-formed marker, `{% embed ` + app name +
/// option text + ` %}` (an app name of app-name characters, option text that holds
/// no `%}` and does not go on with app-name characters), holds that one marker,
/// and expanding it gives just the text rendered for it.
pub proof fn law_marker_replaced(x: Seq<char>, o: Seq<char>, r: Seq<Seq<char>>)
    requires
        x.len() > 0,
        forall|k: int| 0 <= k < x.len() ==> is_app_char(#[trigger] x[k]),
        o.len() == 0 || !is_app_char(o[0]),
        forall|k: int| 0 <= k < o.len() - 1 ==> !(#[trigger] o[k] == '%' && o[k + 1] == '}'),
        r.len() >= 1,
    ensures
        markers(open_tag() + x + o + seq![' ', '%', '}']) == seq![(x, o)],
        expand(open_tag() + x + o + seq![' ', '%', '}'], r) == r[0],
{
    let s = open_tag() + x + o + seq![' ', '%', '}'];
    let n = s.len() as int;
    let p: int = 9 + x.len() as int;
    let q = n - 2;
    assert(s.subrange(0, 9) =~= open_tag());
    assert forall|k: int| 9 <= k < p implies is_app_char(#[trigger] s[k]) by {
        assert(s[k] == x[k - 9]);
    }
    if o.len() > 0 {
        assert(s[p] == o[0]);
    }
    lemma_app_end(s, 9, p);
    assert(s.subrange(q, q + 2) =~= close_tag());
    assert forall|k: int| p <= k < q implies !occurs_at(s, k, close_tag()) by {
        if occurs_at(s, k, close_tag()) {
            assert(s.subrange(k, k + 2)[0] == '%' && s.subrange(k, k + 2)[1] == '}');
            if k < p + o.len() - 1 {
                assert(s[k] == o[k - p] && s[k + 1] == o[k - p + 1]);
            } else if k == p + o.len() - 1 {
                assert(s[k + 1] == ' ');
            } else {
                assert(s[k] == ' ');
            }
        }
    }
    lemma_first_close(s, p, q);
    assert(marker_at(s, 0) == Some((p, q - 1, n)));
    assert(s.subrange(9, p) =~= x);
    assert(s.subrange(p, q - 1) =~= o);
    assert(markers_from(s, n) =~= Seq::<(Seq<char>, Seq<char>)>::empty());
    assert(markers(s) =~= seq![(x, o)]);
    assert(expand_from(s, n, r.drop_first()) =~= Seq::<char>::empty());
    assert(expand(s, r) =~= r[0]);
}

} // verus!
