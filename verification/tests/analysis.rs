use seo_crawler::analyze::{
    analyze, analyze_elements, anchor_hrefs, count_missing_alt, first_attr_of, first_named,
    first_with_attr, messages_for, page_signals, page_title, PageSignals,
};
use seo_crawler::html::{HtmlAttribute, HtmlElement};
use seo_crawler::text::decimal_string;

fn element(name: &str, attrs: &[(&str, &str)], text: &str) -> HtmlElement {
    HtmlElement {
        name: name.to_string(),
        attributes: attrs
            .iter()
            .map(|(k, v)| HtmlAttribute { name: k.to_string(), value: v.to_string() })
            .collect(),
        text: text.to_string(),
    }
}

#[test]
fn title_is_absent_without_title_element() {
    let a = analyze("<html><body><p>hello</p></body></html>", "http://x.test/");
    assert_eq!(a.signals.title, None);
    assert_eq!(a.messages[0], "⚠️ Missing <title> tag");
}

#[test]
fn title_is_text_of_first_title_element() {
    let a = analyze(
        "<html><head><title>Home</title></head><body><svg><title>Later</title></svg></body></html>",
        "http://x.test/",
    );
    assert_eq!(a.signals.title, Some("Home".to_string()));
    assert_eq!(a.messages[0], "✅ Title found: Home");
}

#[test]
fn empty_description_is_present_but_empty() {
    let a = analyze(
        "<html><head><meta name=\"description\" content=\"\"></head></html>",
        "http://x.test/",
    );
    assert_eq!(a.signals.meta_description, Some(String::new()));
    assert_eq!(a.messages[1], "⚠️ Empty meta description");
}

#[test]
fn description_is_absent_without_the_tag() {
    let a = analyze("<html><head><meta charset=\"utf-8\"></head></html>", "http://x.test/");
    assert_eq!(a.signals.meta_description, None);
    assert_eq!(a.messages[1], "⚠️ Missing meta description");
}

#[test]
fn description_is_content_of_first_description_tag() {
    let a = analyze(
        "<head><meta name=\"description\" content=\"first\"><meta name=\"description\" content=\"second\"></head>",
        "http://x.test/",
    );
    assert_eq!(a.signals.meta_description, Some("first".to_string()));
    assert_eq!(a.messages[1], "✅ Meta description found");
}

#[test]
fn description_tag_without_content_is_absent() {
    let elems = vec![
        element("meta", &[("name", "description")], ""),
        element("meta", &[("name", "description"), ("content", "later")], ""),
    ];
    assert_eq!(first_attr_of(&elems, "name", "description", "content"), None);
}

#[test]
fn canonical_is_href_of_first_canonical_link() {
    let a = analyze(
        "<head><link rel=\"stylesheet\" href=\"/s.css\"><link rel=\"canonical\" href=\"http://x.test/home\"></head>",
        "http://x.test/",
    );
    assert_eq!(a.signals.canonical, Some("http://x.test/home".to_string()));
    assert_eq!(a.messages[2], "✅ Canonical tag: http://x.test/home");
}

#[test]
fn canonical_is_absent_without_the_link() {
    let a = analyze("<head><link rel=\"stylesheet\" href=\"/s.css\"></head>", "http://x.test/");
    assert_eq!(a.signals.canonical, None);
    assert_eq!(a.messages[2], "⚠️ Missing canonical tag");
}

#[test]
fn two_of_five_images_lack_alt() {
    let html = "<body><img src=\"1\" alt=\"one\"><img src=\"2\"><img src=\"3\" alt=\"\">\
                <img src=\"4\"><img src=\"5\" alt=\"five\"></body>";
    let a = analyze(html, "http://x.test/");
    assert_eq!(a.signals.missing_alt_count, 2);
    assert_eq!(a.messages[3], "✅ Images missing alt text: 2");
}

#[test]
fn empty_alt_counts_as_present() {
    let elems = vec![element("img", &[("alt", "")], ""), element("img", &[("src", "x")], "")];
    assert_eq!(count_missing_alt(&elems), 1);
}

#[test]
fn page_without_images_misses_no_alt() {
    let a = analyze("<p>text</p>", "http://x.test/");
    assert_eq!(a.signals.missing_alt_count, 0);
    assert_eq!(a.messages[3], "✅ Images missing alt text: 0");
}

#[test]
fn messages_come_in_fixed_order() {
    let signals = PageSignals {
        title: Some("T".to_string()),
        meta_description: Some("d".to_string()),
        canonical: None,
        missing_alt_count: 12,
    };
    assert_eq!(
        messages_for(&signals),
        vec![
            "✅ Title found: T".to_string(),
            "✅ Meta description found".to_string(),
            "⚠️ Missing canonical tag".to_string(),
            "✅ Images missing alt text: 12".to_string(),
        ]
    );
}

#[test]
fn messages_of_a_bare_page() {
    let signals = page_signals(&Vec::new());
    assert_eq!(
        messages_for(&signals),
        vec![
            "⚠️ Missing <title> tag".to_string(),
            "⚠️ Missing meta description".to_string(),
            "⚠️ Missing canonical tag".to_string(),
            "✅ Images missing alt text: 0".to_string(),
        ]
    );
}

#[test]
fn first_named_and_first_with_attr_give_the_first_index() {
    let elems = vec![
        element("p", &[], ""),
        element("title", &[], "A"),
        element("title", &[], "B"),
        element("meta", &[("name", "x"), ("name", "description")], ""),
        element("meta", &[("name", "description")], ""),
    ];
    assert_eq!(first_named(&elems, "title"), Some(1));
    assert_eq!(first_named(&elems, "h1"), None);
    assert_eq!(first_with_attr(&elems, "name", "description"), Some(4));
    assert_eq!(first_with_attr(&elems, "name", "x"), Some(3));
    assert_eq!(page_title(&elems), Some("A".to_string()));
}

#[test]
fn attribute_lookup_takes_the_first_of_a_name() {
    let e = element("a", &[("href", "/one"), ("href", "/two")], "");
    assert_eq!(e.attribute("href"), Some(&"/one".to_string()));
    assert_eq!(e.attribute("rel"), None);
    assert!(e.has_name("a"));
    assert!(!e.has_name("A"));
}

#[test]
fn anchors_without_href_are_passed_over() {
    let elems = vec![
        element("a", &[("href", "/one")], ""),
        element("a", &[("name", "top")], ""),
        element("link", &[("href", "/style")], ""),
        element("a", &[("href", "two")], ""),
    ];
    assert_eq!(anchor_hrefs(&elems), vec!["/one".to_string(), "two".to_string()]);
}

#[test]
fn links_are_resolved_against_the_page() {
    let html = "<a href=\"/about\">a</a><a href=\"team\">b</a><a href=\"//cdn.x.test/y\">c</a>\
                <a href=\"#top\">d</a><a href=\"http://other.test/\">e</a>";
    let a = analyze(html, "http://x.test/dir/page");
    assert_eq!(
        a.links,
        vec![
            "http://x.test/about".to_string(),
            "http://x.test/dir/team".to_string(),
            "http://cdn.x.test/y".to_string(),
            "http://x.test/dir/page#top".to_string(),
            "http://other.test/".to_string(),
        ]
    );
}

#[test]
fn links_that_do_not_resolve_are_dropped() {
    let elems = vec![
        element("a", &[("href", "http://[bad")], ""),
        element("a", &[("href", "/fine")], ""),
    ];
    let a = analyze_elements(&elems, "http://x.test/");
    assert_eq!(a.links, vec!["http://x.test/fine".to_string()]);
    let b = analyze_elements(&elems, "not a url");
    assert!(b.links.is_empty());
}

#[test]
fn decimal_strings() {
    assert_eq!(decimal_string(0), "0");
    assert_eq!(decimal_string(7), "7");
    assert_eq!(decimal_string(10), "10");
    assert_eq!(decimal_string(12345), "12345");
    assert_eq!(decimal_string(usize::MAX), format!("{}", usize::MAX));
}
