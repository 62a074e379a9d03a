use embedify::{
    expand_embeds, find_embeds, global_calls, parse_options, protect_ignored, restore_ignored,
    setting_or, Embed, Settings, TemplateCall,
};

fn settings(gates: bool) -> Settings {
    Settings {
        scroll_to_top: gates,
        announcement_banner: gates,
        giscus: gates,
        footer: gates,
        banner_id: None,
        banner_theme: None,
        banner_message: None,
        giscus_repo: None,
        giscus_repo_id: None,
        giscus_category: None,
        giscus_category_id: None,
        giscus_reactions_enabled: None,
        giscus_theme: None,
        giscus_lang: None,
        giscus_loading: None,
        footer_message: None,
    }
}

fn render(call: &TemplateCall) -> String {
    let opts: Vec<String> = call.options.iter().map(|(k, v)| format!("{}={}", k, v)).collect();
    format!("<{}|{}>", call.name, opts.join(";"))
}

fn transform(content: &str, st: &Settings) -> String {
    let embed = Embed::new();
    let calls = embed.chapter_calls(content, st);
    let rendered: Vec<String> = calls.iter().map(render).collect();
    embed.render_chapter(content, st, &rendered)
}

fn pairs(v: &[(&str, &str)]) -> Vec<(String, String)> {
    v.iter().map(|(k, x)| (k.to_string(), x.to_string())).collect()
}

#[test]
fn preprocessor_name() {
    assert_eq!(Embed::new().name(), "mdbook-embedify");
}

#[test]
fn options_drop_bare_tokens() {
    assert_eq!(
        parse_options("key1=val1   key2=val2 bogus"),
        pairs(&[("key1", "val1"), ("key2", "val2")])
    );
}

#[test]
fn options_split_at_first_equals() {
    assert_eq!(
        parse_options(" a=b=c\t=x y= \n"),
        pairs(&[("a", "b=c"), ("", "x"), ("y", "")])
    );
    assert_eq!(parse_options(""), pairs(&[]));
    assert_eq!(parse_options("   "), pairs(&[]));
}

#[test]
fn options_keep_duplicates_in_order() {
    assert_eq!(parse_options("k=1 k=2"), pairs(&[("k", "1"), ("k", "2")]));
}

#[test]
fn plain_text_unchanged() {
    let text = "# Title\n\nSome text with { braces } and %} marks.\n";
    assert_eq!(transform(text, &settings(false)), text);
    assert_eq!(transform("", &settings(false)), "");
}

#[test]
fn well_formed_marker_replaced() {
    let text = "{% embed X k1=v1 k2=v2 %}";
    let calls = find_embeds(text);
    assert_eq!(calls.len(), 1);
    assert_eq!(calls[0].name, "X");
    assert_eq!(calls[0].options, pairs(&[("k1", "v1"), ("k2", "v2")]));
    assert_eq!(transform(text, &settings(false)), "<X|k1=v1;k2=v2>");
}

#[test]
fn marker_in_surrounding_text() {
    let text = "before {% embed youtube id=abc %} after";
    assert_eq!(transform(text, &settings(false)), "before <youtube|id=abc> after");
}

#[test]
fn marker_without_options() {
    assert_eq!(transform("{% embed foo %}", &settings(false)), "<foo|>");
}

#[test]
fn two_markers_on_one_line() {
    let text = "{% embed a x=1 %} mid {% embed b-2 y=2 %}";
    let calls = find_embeds(text);
    assert_eq!(calls.len(), 2);
    assert_eq!(calls[1].name, "b-2");
    assert_eq!(transform(text, &settings(false)), "<a|x=1> mid <b-2|y=2>");
}

#[test]
fn malformed_markers_left_as_text() {
    let text = "{% embed %} {% embed a%} {% embed a x=1";
    assert_eq!(find_embeds(text).len(), 0);
    assert_eq!(transform(text, &settings(false)), text);
}

#[test]
fn replacement_not_scanned_again() {
    let text = "x {% embed a %} y";
    let out = expand_embeds(text, &vec!["{% embed b %}".to_string()]);
    assert_eq!(out, "x {% embed b %} y");
}

#[test]
fn ignored_marker_kept() {
    let text = "<!-- embed ignore begin -->{% embed foo %}<!-- embed ignore end -->";
    let out = transform(text, &settings(false));
    assert_eq!(out, text);
    assert!(out.contains("{% embed foo %}"));
}

#[test]
fn ignored_region_beside_marker() {
    let text = "{% embed a %}\n<!-- embed ignore begin -->{% embed foo %}<!-- embed ignore end -->";
    let out = transform(text, &settings(false));
    assert_eq!(
        out,
        "<a|>\n<!-- embed ignore begin -->{% embed foo %}<!-- embed ignore end -->"
    );
}

#[test]
fn two_ignored_regions_restored() {
    let text = "<!-- embed ignore begin -->{% embed a %}<!-- embed ignore end -->\nmid\n\
                <!-- embed ignore begin -->{% embed b %}<!-- embed ignore end -->";
    let out = transform(text, &settings(false));
    assert_eq!(out, text);
    assert!(!out.contains("EMBED_IGNORE_"));
}

#[test]
fn protect_uses_placeholder() {
    let (working, sections) =
        protect_ignored("a<!-- embed ignore begin -->x<!-- embed ignore end -->b");
    assert_eq!(working, "aEMBED_IGNORE_0b");
    assert_eq!(
        sections,
        pairs(&[("EMBED_IGNORE_0", "<!-- embed ignore begin -->x<!-- embed ignore end -->")])
    );
    assert_eq!(
        restore_ignored(&working, &sections),
        "a<!-- embed ignore begin -->x<!-- embed ignore end -->b"
    );
}

#[test]
fn unterminated_region_is_plain_text() {
    let text = "<!-- embed ignore begin -->{% embed foo %}";
    let (working, sections) = protect_ignored(text);
    assert_eq!(working, text);
    assert!(sections.is_empty());
    assert_eq!(
        transform(text, &settings(false)),
        "<!-- embed ignore begin --><foo|>"
    );
}

#[test]
fn all_gates_on_empty_chapter() {
    let out = transform("", &settings(true));
    assert_eq!(
        out,
        "<scroll-to-top|>\
         <announcement-banner|id=;message=;theme=default>\
         <giscus|repo=;repo-id=;category=;category-id=;reactions-enabled=1;theme=light;lang=en;loading=lazy>\
         <footer|message=>"
    );
}

#[test]
fn appending_twice_appends_again() {
    let mut st = settings(false);
    st.footer = true;
    st.footer_message = Some("bye".to_string());
    let once = transform("text", &st);
    assert_eq!(once, "text<footer|message=bye>");
    let twice = transform(&once, &st);
    assert_eq!(twice, "text<footer|message=bye><footer|message=bye>");
}

#[test]
fn gate_order_is_fixed() {
    let mut st = settings(false);
    st.giscus = true;
    st.scroll_to_top = true;
    let calls = global_calls(&st);
    let names: Vec<&str> = calls.iter().map(|c| c.name.as_str()).collect();
    assert_eq!(names, vec!["scroll-to-top", "giscus"]);
}

#[test]
fn settings_fall_back_to_defaults() {
    assert_eq!(setting_or(&None, "light"), "light");
    assert_eq!(setting_or(&Some(String::new()), "light"), "light");
    assert_eq!(setting_or(&Some("dark".to_string()), "light"), "dark");
    let mut st = settings(false);
    st.announcement_banner = true;
    st.banner_id = Some("v1".to_string());
    st.banner_theme = Some(String::new());
    st.banner_message = Some("hello".to_string());
    assert_eq!(transform("", &st), "<announcement-banner|id=v1;message=hello;theme=default>");
}

#[test]
fn markers_expanded_before_appends() {
    let mut st = settings(false);
    st.scroll_to_top = true;
    let out = transform("{% embed a k=v %}!", &st);
    assert_eq!(out, "<a|k=v>!<scroll-to-top|>");
}

#[test]
fn placeholder_avoids_existing_text() {
    let text = "EMBED_IGNORE_0 <!-- embed ignore begin -->x<!-- embed ignore end --> {% embed a %}";
    let (working, sections) = protect_ignored(text);
    assert_eq!(working, "EMBED_IGNORE_0 EMBED_IGNORE_0_ {% embed a %}");
    assert_eq!(sections[0].0, "EMBED_IGNORE_0_");
    assert_eq!(
        transform(text, &settings(false)),
        "EMBED_IGNORE_0 <!-- embed ignore begin -->x<!-- embed ignore end --> <a|>"
    );
}
