use vstd::prelude::*;
use crate::ignore::{find_from, find_from_exec, protect_ignored, protect_spec, restore_ignored, restore_spec};
use crate::marker::{
    marker_calls,
    call_view, expand, expand_embeds, find_embeds, markers, open_tag, strings_view, TemplateCall,
};
use crate::options::options_view;
use crate::text::{chars_of, string_of};

verus! {

/// The configuration the engine reads: the four gates, and the string settings of
/// the appended templates, each `None` where the key is not set.
pub struct Settings {
    pub scroll_to_top: bool,
    pub announcement_banner: bool,
    pub giscus: bool,
    pub footer: bool,
    pub banner_id: Option<String>,
    pub banner_theme: Option<String>,
    pub banner_message: Option<String>,
    pub giscus_repo: Option<String>,
    pub giscus_repo_id: Option<String>,
    pub giscus_category: Option<String>,
    pub giscus_category_id: Option<String>,
    pub giscus_reactions_enabled: Option<String>,
    pub giscus_theme: Option<String>,
    pub giscus_lang: Option<String>,
    pub giscus_loading: Option<String>,
    pub footer_message: Option<String>,
}

/// A setting's value, or `default` where it is unset or empty.
pub open spec fn value_or(v: Option<String>, default: Seq<char>) -> Seq<char> {
    match v {
        Some(x) => if x@.len() > 0 {
            x@
        } else {
            default
        },
        None => default,
    }
}

/// A setting's value, or `default` where it is unset or empty.
pub fn setting_or(v: &Option<String>, default: &str) -> (r: String)
    ensures
        r@ == value_or(*v, default@),
{
    match v {
        Some(x) => {
            if !x.as_str().is_empty() {
                x.clone()
            } else {
                default.to_owned()
            }
        },
        None => default.to_owned(),
    }
}

fn pair(key: &str, value: String) -> (r: (String, String))
    ensures
        r.0@ == key@,
        r.1@ == value@,
{
    (key.to_owned(), value)
}

/// The ordered options of the announcement banner template.
pub open spec fn banner_options(st: Settings) -> Seq<(Seq<char>, Seq<char>)> {
    seq![
        ("id"@, value_or(st.banner_id, ""@)),
        ("message"@, value_or(st.banner_message, ""@)),
        ("theme"@, value_or(st.banner_theme, "default"@)),
    ]
}

/// The ordered options of the giscus comment widget template.
pub open spec fn giscus_options(st: Settings) -> Seq<(Seq<char>, Seq<char>)> {
    seq![
        ("repo"@, value_or(st.giscus_repo, ""@)),
        ("repo-id"@, value_or(st.giscus_repo_id, ""@)),
        ("category"@, value_or(st.giscus_category, ""@)),
        ("category-id"@, value_or(st.giscus_category_id, ""@)),
        ("reactions-enabled"@, value_or(st.giscus_reactions_enabled, "1"@)),
        ("theme"@, value_or(st.giscus_theme, "light"@)),
        ("lang"@, value_or(st.giscus_lang, "en"@)),
        ("loading"@, value_or(st.giscus_loading, "lazy"@)),
    ]
}

/// The ordered options of the footer template.
pub open spec fn footer_options(st: Settings) -> Seq<(Seq<char>, Seq<char>)> {
    seq![("message"@, value_or(st.footer_message, ""@))]
}

/// The templates appended to every chapter, in the fixed order scroll-to-top,
/// announcement banner, giscus, footer, each only where its gate is on.
pub open spec fn global_calls_spec(st: Settings) -> Seq<(Seq<char>, Seq<(Seq<char>, Seq<char>)>)> {
    (if st.scroll_to_top {
        seq![("scroll-to-top"@, Seq::empty())]
    } else {
        Seq::empty()
    }) + (if st.announcement_banner {
        seq![("announcement-banner"@, banner_options(st))]
    } else {
        Seq::empty()
    }) + (if st.giscus {
        seq![("giscus"@, giscus_options(st))]
    } else {
        Seq::empty()
    }) + (if st.footer {
        seq![("footer"@, footer_options(st))]
    } else {
        Seq::empty()
    })
}

/// The call of the announcement banner template, with its settings or their defaults.
pub fn announcement_banner_call(st: &Settings) -> (r: TemplateCall)
    ensures
        call_view(r) == ("announcement-banner"@, banner_options(*st)),
{
    let id = setting_or(&st.banner_id, "");
    let theme = setting_or(&st.banner_theme, "default");
    let message = setting_or(&st.banner_message, "");
    let options = vec![pair("id", id), pair("message", message), pair("theme", theme)];
    let r = TemplateCall { name: "announcement-banner".to_owned(), options };
    assert(options_view(r.options@) =~= banner_options(*st));
    r
}

/// The call of the giscus comment widget template, with its settings or their defaults.
pub fn giscus_call(st: &Settings) -> (r: TemplateCall)
    ensures
        call_view(r) == ("giscus"@, giscus_options(*st)),
{
    let repo = setting_or(&st.giscus_repo, "");
    let repo_id = setting_or(&st.giscus_repo_id, "");
    let category = setting_or(&st.giscus_category, "");
    let category_id = setting_or(&st.giscus_category_id, "");
    let reactions_enabled = setting_or(&st.giscus_reactions_enabled, "1");
    let theme = setting_or(&st.giscus_theme, "light");
    let lang = setting_or(&st.giscus_lang, "en");
    let loading = setting_or(&st.giscus_loading, "lazy");
    let options = vec![
        pair("repo", repo),
        pair("repo-id", repo_id),
        pair("category", category),
        pair("category-id", category_id),
        pair("reactions-enabled", reactions_enabled),
        pair("theme", theme),
        pair("lang", lang),
        pair("loading", loading),
    ];
    let r = TemplateCall { name: "giscus".to_owned(), options };
    assert(options_view(r.options@) =~= giscus_options(*st));
    r
}

/// The call of the footer template, with its message or the empty default.
pub fn footer_call(st: &Settings) -> (r: TemplateCall)
    ensures
        call_view(r) == ("footer"@, footer_options(*st)),
{
    let message = setting_or(&st.footer_message, "");
    let options = vec![pair("message", message)];
    let r = TemplateCall { name: "footer".to_owned(), options };
    assert(options_view(r.options@) =~= footer_options(*st));
    r
}

/// The call of the scroll-to-top template, which takes no options.
pub fn scroll_to_top_call() -> (r: TemplateCall)
    ensures
        call_view(r) == ("scroll-to-top"@, Seq::<(Seq<char>, Seq<char>)>::empty()),
{
    let r = TemplateCall { name: "scroll-to-top".to_owned(), options: Vec::new() };
    assert(options_view(r.options@) =~= Seq::empty());
    r
}

/// The view of a list of template calls.
pub open spec fn calls_view(v: Seq<TemplateCall>) -> Seq<(Seq<char>, Seq<(Seq<char>, Seq<char>)>)> {
    v.map_values(|c: TemplateCall| call_view(c))
}

/// The templates appended to every chapter, in the fixed gate order
/// scroll-to-top, announcement banner, giscus, footer; each only where its gate is on.
pub fn global_calls(st: &Settings) -> (r: Vec<TemplateCall>)
    ensures
        calls_view(r@) == global_calls_spec(*st),
{
    let mut r: Vec<TemplateCall> = Vec::new();
    if st.scroll_to_top {
        r.push(scroll_to_top_call());
    }
    if st.announcement_banner {
        r.push(announcement_banner_call(st));
    }
    if st.giscus {
        r.push(giscus_call(st));
    }
    if st.footer {
        r.push(footer_call(st));
    }
    assert(calls_view(r@) =~= global_calls_spec(*st));
    r
}

/// The text ` %}`, which a marker ends with.
pub open spec fn close_hint() -> Seq<char> {
    seq![' ', '%', '}']
}

/// Whether marker expansion runs on `s` at all: only where `s` holds both
/// `{% embed ` and ` %}`.
pub open spec fn should_expand(s: Seq<char>) -> bool {
    find_from(s, open_tag(), 0) >= 0 && find_from(s, close_hint(), 0) >= 0
}

/// The calls that a chapter's markers ask for, outside its ignore region.
pub open spec fn chapter_marker_calls(s: Seq<char>) -> Seq<(Seq<char>, Seq<(Seq<char>, Seq<char>)>)> {
    if should_expand(s) {
        marker_calls(protect_spec(s).0)
    } else {
        Seq::empty()
    }
}

/// All calls a chapter needs: those of its markers, then the appended templates.
pub open spec fn chapter_calls_spec(s: Seq<char>, st: Settings) -> Seq<
    (Seq<char>, Seq<(Seq<char>, Seq<char>)>),
> {
    chapter_marker_calls(s) + global_calls_spec(st)
}

/// The chapter text after its markers are replaced by the first `r` texts, one per
/// marker, and its ignored text is put back.
pub open spec fn expanded_body(s: Seq<char>, r: Seq<Seq<char>>) -> Seq<char> {
    if should_expand(s) {
        let (w, sections) = protect_spec(s);
        restore_spec(expand(w, r.take(markers(w).len() as int)), sections)
    } else {
        s
    }
}

/// The transformed chapter: the expanded body, then the remaining rendered texts
/// (those of the appended templates), one after another.
pub open spec fn chapter_output(s: Seq<char>, r: Seq<Seq<char>>) -> Seq<char> {
    expanded_body(s, r) + r.skip(chapter_marker_calls(s).len() as int).flatten()
}

/// The chapter preprocessor.
pub struct Embed;

impl Embed {
    /// Creates the preprocessor.
    pub fn new() -> (r: Embed) {
        Embed
    }

    /// The name the preprocessor goes by.
    pub fn name(&self) -> (r: String)
        ensures
            r@ == "mdbook-embedify"@,
    {
        "mdbook-embedify".to_owned()
    }

    fn should_expand_exec(content: &Vec<char>) -> (r: bool)
        ensures
            r == should_expand(content@),
    {
        let open = vec!['{', '%', ' ', 'e', 'm', 'b', 'e', 'd', ' '];
        let close = vec![' ', '%', '}'];
        assert(open@ =~= open_tag());
        assert(close@ =~= close_hint());
        find_from_exec(content, &open).is_some() && find_from_exec(content, &close).is_some()
    }

    /// The template calls that rendering `content` needs, in order: one per embed
    /// marker outside the ignore region (only where the text holds both `{% embed `
    /// and ` %}`), then the templates whose gates are on, in the fixed gate order.
    pub fn chapter_calls(&self, content: &str, st: &Settings) -> (r: Vec<TemplateCall>)
        ensures
            calls_view(r@) == chapter_calls_spec(content@, *st),
    {
        let s = chars_of(content);
        let mut r: Vec<TemplateCall> = if Self::should_expand_exec(&s) {
            let (w, _sections) = protect_ignored(content);
            find_embeds(w.as_str())
        } else {
            Vec::new()
        };
        assert(calls_view(r@) =~= chapter_marker_calls(content@));
        let mut g = global_calls(st);
        r.append(&mut g);
        assert(calls_view(r@) =~= chapter_calls_spec(content@, *st));
        r
    }

    /// Transforms one chapter, given the rendered text of each call that
    /// `chapter_calls` lists, in the same order: each marker outside the ignore
    /// region is replaced by its rendered text, the ignored text is put back, and
    /// the rendered appended templates follow at the end.
    pub fn render_chapter(&self, content: &str, st: &Settings, rendered: &Vec<String>) -> (r:
        String)
        requires
            rendered@.len() == chapter_calls_spec(content@, *st).len(),
        ensures
            r@ == chapter_output(content@, strings_view(rendered@)),
    {
        let s = chars_of(content);
        let ghost rs = strings_view(rendered@);
        let n: usize;
        let mut out: Vec<char>;
        if Self::should_expand_exec(&s) {
            let (w, sections) = protect_ignored(content);
            let calls = find_embeds(w.as_str());
            n = calls.len();
            let mut first: Vec<String> = Vec::new();
            let mut k: usize = 0;
            while k < n
                invariant
                    k <= n,
                    n <= rendered@.len(),
                    first@.len() == k,
                    forall|j: int| 0 <= j < k ==> #[trigger] first@[j]@ == rendered@[j]@,
                decreases n - k,
            {
                first.push(rendered[k].clone());
                k = k + 1;
            }
            assert(strings_view(first@) =~= rs.take(n as int));
            let expanded = expand_embeds(w.as_str(), &first);
            let body = restore_ignored(expanded.as_str(), &sections);
            out = chars_of(body.as_str());
        } else {
            n = 0;
            out = s;
        }
        assert(out@ == expanded_body(content@, rs));
        assert(n == chapter_marker_calls(content@).len());
        let ghost body = out@;
        let mut k: usize = n;
        assert(rs.subrange(n as int, k as int) =~= Seq::<Seq<char>>::empty());
        assert(body + Seq::<Seq<char>>::empty().flatten() =~= body);
        while k < rendered.len()
            invariant
                n <= k <= rendered@.len(),
                rs == strings_view(rendered@),
                out@ == body + rs.subrange(n as int, k as int).flatten(),
            decreases rendered@.len() - k,
        {
            let mut piece = chars_of(rendered[k].as_str());
            proof {
                assert(rs.subrange(n as int, k + 1) =~= rs.subrange(n as int, k as int).push(
                    piece@,
                ));
                rs.subrange(n as int, k as int).lemma_flatten_push(piece@);
            }
            out.append(&mut piece);
            k = k + 1;
        }
        assert(rs.subrange(n as int, k as int) =~= rs.skip(n as int));
        string_of(&out, 0, out.len())
    }
}

} // verus!
