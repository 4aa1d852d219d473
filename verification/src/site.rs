//! A whole crawl over pages that are already at hand.

use vstd::prelude::*;
use vstd::string::*;
use crate::crawl::{links_followed, reversed, Crawl};
use crate::html::html_elements;
use crate::links::{on_site, parse_url, parsed_url, probe_target, robots_url, sitemap_url};
use crate::response::{is_success, probe_found, success_status};
use crate::report::SeoReport;
use crate::text::opt_text;

verus! {

/// What a request to one address is answered with: the status, and the body
/// where it could be read as text.
pub struct SitePage {
    pub url: String,
    pub status: u16,
    pub body: Option<String>,
}

/// The index of the first page among `site[from..]` whose address is `url`.
pub open spec fn page_index_from(site: Seq<SitePage>, url: Seq<char>, from: int) -> Option<int>
    decreases site.len() - from,
{
    if from < 0 || from >= site.len() {
        None
    } else if site[from].url@ == url {
        Some(from)
    } else {
        page_index_from(site, url, from + 1)
    }
}

/// The page text that fetching `url` from `site` yields: the body of the
/// first page with that address, where `url` is an absolute URL, the page's
/// status reports success and its body is text.
pub open spec fn site_html(site: Seq<SitePage>, url: Seq<char>) -> Option<Seq<char>> {
    match page_index_from(site, url, 0) {
        Some(i) => if parsed_url(url) is Some && success_status(site[i].status) {
            opt_text(site[i].body)
        } else {
            None
        },
        None => None,
    }
}

/// Whether the presence probe for `path` on the host of `page` finds
/// something on `site`.
pub open spec fn probe_on(site: Seq<SitePage>, page: Seq<char>, path: Seq<char>) -> bool {
    match probe_target(page, path) {
        Some(address) => match page_index_from(site, address, 0) {
            Some(i) => success_status(site[i].status),
            None => false,
        },
        None => false,
    }
}

/// The index of the pending link that is looked at next: the last one that
/// is not visited yet.
pub open spec fn next_pending(pending: Seq<Seq<char>>, visited: Seq<Seq<char>>) -> Option<int>
    decreases pending.len(),
{
    if pending.len() == 0 {
        None
    } else if !visited.contains(pending.last()) {
        Some(pending.len() - 1)
    } else {
        next_pending(pending.drop_last(), visited)
    }
}

/// The addresses of the pages that a crawl of `site` records from the given
/// state on, in order. A page whose fetch fails is visited, not recorded,
/// and its links are never seen.
pub open spec fn visit_order(
    site: Seq<SitePage>,
    limit: nat,
    visited: Seq<Seq<char>>,
    pending: Seq<Seq<char>>,
) -> Seq<Seq<char>>
    decreases limit - visited.len(),
{
    if visited.len() >= limit {
        Seq::empty()
    } else {
        match next_pending(pending, visited) {
            None => Seq::empty(),
            Some(at) => {
                let url = pending[at];
                let rest = pending.take(at);
                match site_html(site, url) {
                    Some(html) => seq![url] + visit_order(
                        site,
                        limit,
                        visited.push(url),
                        rest + reversed(links_followed(url, html_elements(html))),
                    ),
                    None => visit_order(site, limit, visited.push(url), rest),
                }
            },
        }
    }
}

/// The addresses of a sequence of records.
pub open spec fn record_urls(records: Seq<SeoReport>) -> Seq<Seq<char>> {
    Seq::new(records.len(), |k: int| records[k].url@)
}

/// `report` is the record of its page as `site` serves it.
pub open spec fn record_of_site(site: Seq<SitePage>, report: SeoReport) -> bool {
    match site_html(site, report.url@) {
        Some(html) => report.describes_page(
            report.url@,
            html_elements(html),
            probe_on(site, report.url@, "robots.txt"@),
            probe_on(site, report.url@, "sitemap.xml"@),
        ),
        None => false,
    }
}

proof fn lemma_next_pending_found(pending: Seq<Seq<char>>, visited: Seq<Seq<char>>, at: int)
    requires
        0 <= at < pending.len(),
        !visited.contains(pending[at]),
        forall|k: int| at < k < pending.len() ==> visited.contains(#[trigger] pending[k]),
    ensures
        next_pending(pending, visited) == Some(at),
    decreases pending.len(),
{
    if at < pending.len() - 1 {
        assert(visited.contains(pending[pending.len() - 1]));
        let shorter = pending.drop_last();
        assert(shorter[at] == pending[at]);
        assert forall|k: int| at < k < shorter.len() implies visited.contains(#[trigger] shorter[k]) by {
            assert(shorter[k] == pending[k]);
        }
        lemma_next_pending_found(shorter, visited, at);
    }
}

proof fn lemma_next_pending_none(pending: Seq<Seq<char>>, visited: Seq<Seq<char>>)
    requires
        forall|k: int| 0 <= k < pending.len() ==> visited.contains(#[trigger] pending[k]),
    ensures
        next_pending(pending, visited) is None,
    decreases pending.len(),
{
    if pending.len() > 0 {
        assert(visited.contains(pending[pending.len() - 1]));
        let shorter = pending.drop_last();
        assert forall|k: int| 0 <= k < shorter.len() implies visited.contains(#[trigger] shorter[k]) by {
            assert(shorter[k] == pending[k]);
        }
        lemma_next_pending_none(shorter, visited);
    }
}

/// Looks up the answer to a request for `url`: the first page with that
/// address. An address that the site does not list does not answer.
pub fn find_page<'a>(site: &'a Vec<SitePage>, url: &String) -> (page: Option<&'a SitePage>)
    ensures
        match page_index_from(site@, url@, 0) {
            Some(i) => 0 <= i < site@.len() && page == Some(&site@[i]),
            None => page is None,
        },
{
    let mut i: usize = 0;
    while i < site.len()
        invariant
            i <= site.len(),
            page_index_from(site@, url@, 0) == page_index_from(site@, url@, i as int),
        decreases site.len() - i,
    {
        if site[i].url == *url {
            return Some(&site[i]);
        }
        i += 1;
    }
    None
}

/// The status that a probe of `address` meets on `site`; none where there is
/// no address to probe or the site does not answer on it.
pub fn probe_status(site: &Vec<SitePage>, address: &Option<String>) -> (status: Option<u16>)
    ensures
        status == match *address {
            Some(a) => match page_index_from(site@, a@, 0) {
                Some(i) => Some(site@[i].status),
                None => None,
            },
            None => None,
        },
{
    match address {
        Some(a) => match find_page(site, a) {
            Some(page) => Some(page.status),
            None => None,
        },
        None => None,
    }
}

/// The page text that `site` serves at `url`, if a fetch of it succeeds.
pub fn served_page<'a>(site: &'a Vec<SitePage>, url: &String) -> (html: Option<&'a String>)
    ensures
        site_html(site@, url@) == match html {
            Some(text) => Some(text@),
            None => None,
        },
{
    match find_page(site, url) {
        Some(found) => if parse_url(url.as_str()).is_some() && is_success(found.status) {
            match &found.body {
                Some(text) => Some(text),
                None => None,
            }
        } else {
            None
        },
        None => None,
    }
}

/// Crawls `site` from `seed` and returns the records in the order the pages
/// were visited. Every request, for a page or for a probe, is answered from
/// `site`.
///
/// The crawl ends for every site and every limit: each round visits one more
/// address, and no more than `limit` are ever visited.
pub fn crawl_site(seed: &str, limit: usize, site: &Vec<SitePage>) -> (reports: Vec<SeoReport>)
    ensures
        record_urls(reports@) == visit_order(site@, limit as nat, Seq::empty(), seq![seed@]),
        forall|k: int| 0 <= k < reports@.len() ==> record_of_site(site@, #[trigger] reports@[k]),
        reports@.len() <= limit,
        forall|k: int| 0 <= k < reports@.len() ==> on_site(seed@, (#[trigger] reports@[k]).url@),
        forall|k: int| 0 <= k < reports@.len() ==> parsed_url((#[trigger] reports@[k]).url@) is Some,
        forall|j: int, k: int|
            0 <= j < k < reports@.len() ==> (#[trigger] reports@[j]).url@ != (#[trigger] reports@[k]).url@,
{
    let mut crawl = Crawl::new(seed, limit);
    let ghost total = visit_order(site@, limit as nat, Seq::empty(), seq![seed@]);
    assert(record_urls(crawl.records()) + total =~= total);
    loop
        invariant_except_break
            record_urls(crawl.records()) + visit_order(
                site@,
                limit as nat,
                crawl.visited(),
                crawl.pending(),
            ) == total,
        invariant
            crawl.wf(),
            crawl.seed() == seed@,
            crawl.limit() == limit,
            forall|k: int|
                0 <= k < crawl.records().len() ==> record_of_site(site@, #[trigger] crawl.records()[k]),
        ensures
            record_urls(crawl.records()) == total,
        decreases crawl.budget_left(),
    {
        let ghost before = crawl;
        let url = match crawl.next_fetch() {
            Some(url) => url,
            None => {
                proof {
                    if before.visited().len() < before.limit() {
                        lemma_next_pending_none(before.pending(), before.visited());
                    }
                    assert(record_urls(crawl.records()) =~= total);
                }
                break ;
            },
        };
        let ghost asked = crawl;
        proof {
            lemma_next_pending_found(before.pending(), before.visited(), asked.pending().len() as int);
        }
        match served_page(site, &url) {
            Some(html) => {
                let has_robots = probe_found(probe_status(site, &robots_url(url.as_str())));
                let has_sitemap = probe_found(probe_status(site, &sitemap_url(url.as_str())));
                crawl.record_page(html.as_str(), has_robots, has_sitemap);
                proof {
                    let added = crawl.records().last();
                    assert(record_urls(crawl.records()) =~= record_urls(before.records()).push(url@)) by {
                        assert(crawl.records().drop_last() == before.records());
                        assert forall|k: int| 0 <= k < before.records().len() implies crawl.records()[k]
                            == before.records()[k] by {
                            assert(crawl.records().drop_last()[k] == crawl.records()[k]);
                        }
                    }
                    assert(record_urls(before.records()).push(url@) + visit_order(
                        site@,
                        limit as nat,
                        crawl.visited(),
                        crawl.pending(),
                    ) =~= record_urls(before.records()) + (seq![url@] + visit_order(
                        site@,
                        limit as nat,
                        crawl.visited(),
                        crawl.pending(),
                    )));
                    assert(record_of_site(site@, added));
                    assert forall|k: int| 0 <= k < crawl.records().len() implies record_of_site(
                        site@,
                        #[trigger] crawl.records()[k],
                    ) by {
                        if k < before.records().len() {
                            assert(crawl.records().drop_last()[k] == crawl.records()[k]);
                        }
                    }
                }
            },
            None => {},
        }
    }
    proof {
        crawl.lemma_visits_distinct_and_bounded();
        crawl.lemma_records_on_site();
        crawl.lemma_records_sound();
    }
    crawl.into_reports()
}

} // verus!
