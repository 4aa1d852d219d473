use seo_crawler::crawl::{contains_text, Crawl};
use seo_crawler::html::{HtmlAttribute, HtmlElement};
use seo_crawler::report::{report_lines, SeoReport};
use seo_crawler::site::{crawl_site, find_page, probe_status, served_page, SitePage};

fn page(url: &str, status: u16, body: &str) -> SitePage {
    SitePage { url: url.to_string(), status, body: Some(body.to_string()) }
}

fn urls(reports: &[SeoReport]) -> Vec<String> {
    reports.iter().map(|r| r.url.clone()).collect()
}

fn anchor(href: &str) -> HtmlElement {
    HtmlElement {
        name: "a".to_string(),
        attributes: vec![HtmlAttribute { name: "href".to_string(), value: href.to_string() }],
        text: String::new(),
    }
}

#[test]
fn limit_of_one_visits_only_the_seed() {
    let site = vec![
        page("http://x.test/", 200, "<title>Home</title><a href=\"http://x.test/about\">About</a>"),
        page("http://x.test/about", 200, "<title>About</title>"),
    ];
    let reports = crawl_site("http://x.test/", 1, &site);
    assert_eq!(reports.len(), 1);
    assert_eq!(reports[0].url, "http://x.test/");
    assert_eq!(reports[0].title, Some("Home".to_string()));
}

#[test]
fn limit_of_one_never_hands_out_the_second_page() {
    let mut crawl = Crawl::new("http://x.test/", 1);
    assert_eq!(crawl.next_fetch(), Some("http://x.test/".to_string()));
    crawl.record_page("<title>Home</title><a href=\"http://x.test/about\">About</a>", false, false);
    assert_eq!(crawl.next_fetch(), None);
    assert_eq!(crawl.next_fetch(), None);
    assert_eq!(crawl.visited_count(), 1);
    assert_eq!(urls(crawl.reports()), vec!["http://x.test/".to_string()]);
}

#[test]
fn failing_seed_gives_no_record() {
    let site = vec![page("http://x.test/", 500, "<title>Oops</title><a href=\"/a\">a</a>"), page("http://x.test/a", 200, "")];
    let reports = crawl_site("http://x.test/", 5, &site);
    assert!(reports.is_empty());
}

#[test]
fn unanswered_seed_gives_no_record() {
    let reports = crawl_site("http://x.test/", 5, &Vec::new());
    assert!(reports.is_empty());
}

#[test]
fn unreadable_body_gives_no_record() {
    let site = vec![SitePage { url: "http://x.test/".to_string(), status: 200, body: None }];
    assert!(crawl_site("http://x.test/", 5, &site).is_empty());
}

#[test]
fn missing_robots_shows_on_every_record() {
    let site = vec![
        page("http://x.test/", 200, "<a href=\"/a\">a</a>"),
        page("http://x.test/a", 200, ""),
        page("http://x.test/robots.txt", 404, "not found"),
        page("http://x.test/sitemap.xml", 200, "<urlset></urlset>"),
    ];
    let reports = crawl_site("http://x.test/", 5, &site);
    assert_eq!(reports.len(), 2);
    assert!(reports.iter().all(|r| !r.has_robots));
    assert!(reports.iter().all(|r| r.has_sitemap));
}

#[test]
fn present_robots_shows_on_every_record() {
    let site = vec![
        page("http://x.test/", 200, "<a href=\"/a\">a</a>"),
        page("http://x.test/a", 200, ""),
        page("http://x.test/robots.txt", 200, "User-agent: *"),
    ];
    let reports = crawl_site("http://x.test/", 5, &site);
    assert_eq!(reports.len(), 2);
    assert!(reports.iter().all(|r| r.has_robots));
    assert!(reports.iter().all(|r| !r.has_sitemap));
}

#[test]
fn traversal_is_depth_first_in_document_order() {
    let site = vec![
        page("http://x.test/", 200, "<a href=\"/a\">a</a><a href=\"/b\">b</a>"),
        page("http://x.test/a", 200, "<a href=\"/c\">c</a><a href=\"/d\">d</a>"),
        page("http://x.test/b", 200, ""),
        page("http://x.test/c", 200, ""),
        page("http://x.test/d", 200, ""),
    ];
    let all = crawl_site("http://x.test/", 10, &site);
    assert_eq!(
        urls(&all),
        vec!["http://x.test/", "http://x.test/a", "http://x.test/c", "http://x.test/d", "http://x.test/b"]
    );
    let three = crawl_site("http://x.test/", 3, &site);
    assert_eq!(urls(&three), vec!["http://x.test/", "http://x.test/a", "http://x.test/c"]);
}

#[test]
fn no_page_is_visited_twice() {
    let site = vec![
        page("http://x.test/", 200, "<a href=\"/a\">a</a><a href=\"/\">home</a><a href=\"/a\">again</a>"),
        page("http://x.test/a", 200, "<a href=\"/\">home</a><a href=\"/a\">self</a>"),
    ];
    let reports = crawl_site("http://x.test/", 10, &site);
    assert_eq!(urls(&reports), vec!["http://x.test/", "http://x.test/a"]);
}

#[test]
fn failed_fetch_uses_budget_and_ends_only_its_branch() {
    let site = vec![
        page("http://x.test/", 200, "<a href=\"/gone\">x</a><a href=\"/b\">b</a><a href=\"/c\">c</a>"),
        page("http://x.test/gone", 404, "<a href=\"/hidden\">h</a>"),
        page("http://x.test/hidden", 200, ""),
        page("http://x.test/b", 200, ""),
        page("http://x.test/c", 200, ""),
    ];
    let reports = crawl_site("http://x.test/", 3, &site);
    assert_eq!(urls(&reports), vec!["http://x.test/", "http://x.test/b"]);
    let more = crawl_site("http://x.test/", 4, &site);
    assert_eq!(urls(&more), vec!["http://x.test/", "http://x.test/b", "http://x.test/c"]);
}

#[test]
fn other_hosts_are_never_visited() {
    let site = vec![
        page("http://a.example/", 200, "<a href=\"http://b.test/\">b</a><a href=\"http://www.a.example/\">w</a>"),
        page("http://b.test/", 200, ""),
        page("http://www.a.example/", 200, "<a href=\"http://a.example/x\">x</a>"),
        page("http://a.example/x", 200, ""),
    ];
    let reports = crawl_site("http://a.example/", 10, &site);
    assert_eq!(urls(&reports), vec!["http://a.example/", "http://www.a.example/"]);
}

#[test]
fn zero_limit_visits_nothing() {
    let site = vec![page("http://x.test/", 200, "")];
    assert!(crawl_site("http://x.test/", 0, &site).is_empty());
    let mut crawl = Crawl::new("http://x.test/", 0);
    assert_eq!(crawl.next_fetch(), None);
    assert_eq!(crawl.visited_count(), 0);
    assert_eq!(crawl.page_limit(), 0);
}

#[test]
fn records_never_outnumber_the_limit() {
    let site = vec![
        page("http://x.test/", 200, "<a href=\"/1\">1</a><a href=\"/2\">2</a><a href=\"/3\">3</a>"),
        page("http://x.test/1", 200, ""),
        page("http://x.test/2", 200, ""),
        page("http://x.test/3", 200, ""),
    ];
    assert_eq!(crawl_site("http://x.test/", 2, &site).len(), 2);
    assert_eq!(crawl_site("http://x.test/", 4, &site).len(), 4);
    assert_eq!(crawl_site("http://x.test/", 9, &site).len(), 4);
}

#[test]
fn record_without_a_page_handed_out_changes_nothing() {
    let mut crawl = Crawl::new("http://x.test/", 3);
    crawl.record_page("<title>Home</title>", true, true);
    assert!(crawl.reports().is_empty());
    assert_eq!(crawl.next_fetch(), Some("http://x.test/".to_string()));
}

#[test]
fn page_given_up_is_not_recorded_later() {
    let mut crawl = Crawl::new("http://x.test/", 3);
    assert_eq!(crawl.next_fetch(), Some("http://x.test/".to_string()));
    assert_eq!(crawl.next_fetch(), None);
    crawl.record_page("<title>Home</title>", true, true);
    assert!(crawl.into_reports().is_empty());
}

#[test]
fn record_elements_queues_links_first_in_document_first() {
    let mut crawl = Crawl::new("http://x.test/", 5);
    assert_eq!(crawl.next_fetch(), Some("http://x.test/".to_string()));
    crawl.record_elements(&vec![anchor("/a"), anchor("http://other.example/"), anchor("/b")], true, false);
    assert_eq!(crawl.next_fetch(), Some("http://x.test/a".to_string()));
    assert_eq!(crawl.next_fetch(), Some("http://x.test/b".to_string()));
    assert_eq!(crawl.next_fetch(), None);
    let reports = crawl.into_reports();
    assert_eq!(reports.len(), 1);
    assert!(reports[0].has_robots);
    assert!(!reports[0].has_sitemap);
    assert_eq!(reports[0].missing_alt_count, 0);
    assert_eq!(reports[0].messages.len(), 4);
}

#[test]
fn record_carries_signals_and_messages() {
    let html = "<html><head><title>Home</title><meta name=\"description\" content=\"\">\
                </head><body><img src=\"a\"><img src=\"b\" alt=\"b\"></body></html>";
    let reports = crawl_site("http://x.test/", 1, &vec![page("http://x.test/", 200, html)]);
    assert_eq!(reports.len(), 1);
    let r = &reports[0];
    assert_eq!(r.title, Some("Home".to_string()));
    assert_eq!(r.meta_description, Some(String::new()));
    assert_eq!(r.canonical, None);
    assert_eq!(r.missing_alt_count, 1);
    assert_eq!(
        r.messages,
        vec![
            "✅ Title found: Home".to_string(),
            "⚠️ Empty meta description".to_string(),
            "⚠️ Missing canonical tag".to_string(),
            "✅ Images missing alt text: 1".to_string(),
        ]
    );
}

#[test]
fn report_lines_frame_the_messages() {
    let report = SeoReport {
        url: "http://x.test/".to_string(),
        title: None,
        meta_description: None,
        canonical: None,
        missing_alt_count: 0,
        has_robots: true,
        has_sitemap: false,
        messages: vec!["one".to_string(), "two".to_string()],
    };
    assert_eq!(
        report_lines(&report),
        vec![
            "SEO Report for http://x.test/".to_string(),
            "one".to_string(),
            "two".to_string(),
            "robots.txt found: true".to_string(),
            "sitemap.xml found: false".to_string(),
        ]
    );
}

#[test]
fn find_page_takes_the_first_with_the_address() {
    let site = vec![page("http://x.test/", 200, "first"), page("http://x.test/", 500, "second")];
    let found = find_page(&site, &"http://x.test/".to_string());
    assert_eq!(found.map(|p| p.status), Some(200));
    assert!(find_page(&site, &"http://x.test/a".to_string()).is_none());
    assert_eq!(probe_status(&site, &Some("http://x.test/".to_string())), Some(200));
    assert_eq!(probe_status(&site, &Some("http://y.test/".to_string())), None);
    assert_eq!(probe_status(&site, &None), None);
}

#[test]
fn contains_text_compares_whole_strings() {
    let list = vec!["http://x.test/".to_string(), "http://x.test/a".to_string()];
    assert!(contains_text(&list, &"http://x.test/a".to_string()));
    assert!(!contains_text(&list, &"http://x.test".to_string()));
    assert!(!contains_text(&Vec::new(), &String::new()));
}

#[test]
fn seed_that_is_no_url_gives_no_record() {
    let site = vec![page("home", 200, "<title>Home</title>")];
    assert!(crawl_site("home", 5, &site).is_empty());
    let mut crawl = Crawl::new("home", 5);
    assert_eq!(crawl.next_fetch(), Some("home".to_string()));
    crawl.record_page("<title>Home</title>", true, true);
    assert!(crawl.reports().is_empty());
    assert_eq!(crawl.visited_count(), 1);
    assert_eq!(crawl.next_fetch(), None);
}

#[test]
fn fragment_makes_another_address() {
    let site = vec![
        page("http://x.test/", 200, "<a href=\"#top\">top</a>"),
        page("http://x.test/#top", 200, ""),
    ];
    let reports = crawl_site("http://x.test/", 5, &site);
    assert_eq!(urls(&reports), vec!["http://x.test/", "http://x.test/#top"]);
}

#[test]
fn probes_go_to_the_host_of_each_page() {
    let site = vec![
        page("http://a.example/", 200, "<a href=\"http://www.a.example/\">w</a>"),
        page("http://www.a.example/", 200, ""),
        page("http://a.example/robots.txt", 200, ""),
        page("http://www.a.example/sitemap.xml", 200, ""),
    ];
    let reports = crawl_site("http://a.example/", 5, &site);
    assert_eq!(reports.len(), 2);
    assert!(reports[0].has_robots && !reports[0].has_sitemap);
    assert!(!reports[1].has_robots && reports[1].has_sitemap);
}

#[test]
fn served_page_needs_success_and_a_body() {
    let site = vec![
        page("http://x.test/", 200, "home"),
        page("http://x.test/gone", 404, "gone"),
        SitePage { url: "http://x.test/raw".to_string(), status: 200, body: None },
        page("nowhere", 200, "text"),
    ];
    assert_eq!(served_page(&site, &"http://x.test/".to_string()), Some(&"home".to_string()));
    assert_eq!(served_page(&site, &"http://x.test/gone".to_string()), None);
    assert_eq!(served_page(&site, &"http://x.test/raw".to_string()), None);
    assert_eq!(served_page(&site, &"http://x.test/other".to_string()), None);
    assert_eq!(served_page(&site, &"nowhere".to_string()), None);
}
