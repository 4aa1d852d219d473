//! The crawl itself: which page is fetched next, and what a fetched page adds.
//!
//! A [`Crawl`] owns the visited set, the page budget, the links waiting to be
//! looked at and the records made so far. The caller drives it: it asks for
//! the next address with [`Crawl::next_fetch`], fetches it, and hands a page
//! that arrived to [`Crawl::record_page`]. A fetch that failed is simply not
//! handed back.

use vstd::prelude::*;
use vstd::string::*;
use crate::analyze::{analyze_elements, hrefs_upto};
use crate::html::{html_elements, parse_elements, HtmlElement};
use crate::links::{
    followed_upto,
    follows,
    host_of,
    lemma_followed_all_follow,
    lemma_followed_link_on_site,
    lemma_follows_refl,
    on_site,
    parse_url,
    parsed_url,
    resolved_upto,
    same_host_links,
};
use crate::report::SeoReport;
use crate::text::{opt_text, texts};

verus! {

/// `s` back to front.
pub open spec fn reversed(s: Seq<Seq<char>>) -> Seq<Seq<char>> {
    Seq::new(s.len(), |k: int| s[s.len() - 1 - k])
}

/// The links that a crawl follows from the page at `page` with the elements
/// `elems`: the anchors' `href` values that resolve against the page and pass
/// the same-host rule, in document order.
pub open spec fn links_followed(page: Seq<char>, elems: Seq<HtmlElement>) -> Seq<Seq<char>> {
    let hrefs = hrefs_upto(elems, elems.len() as int);
    let links = resolved_upto(page, hrefs, hrefs.len() as int);
    followed_upto(page, links, links.len() as int)
}

/// Tells whether `wanted` is among `list`.
pub fn contains_text(list: &Vec<String>, wanted: &String) -> (found: bool)
    ensures
        found == texts(list@).contains(wanted@),
{
    let mut i: usize = 0;
    while i < list.len()
        invariant
            i <= list.len(),
            forall|k: int| 0 <= k < i ==> texts(list@)[k] != wanted@,
        decreases list.len() - i,
    {
        if list[i] == *wanted {
            assert(texts(list@)[i as int] == wanted@);
            return true;
        }
        i += 1;
    }
    false
}

/// The state of one crawl.
pub struct Crawl {
    seed: String,
    limit: usize,
    visited: Vec<String>,
    pending: Vec<String>,
    current: Option<String>,
    reports: Vec<SeoReport>,
}

impl Crawl {
    /// The address the crawl started from.
    pub closed spec fn seed(&self) -> Seq<char> {
        self.seed@
    }

    /// The ceiling on the number of pages visited.
    pub closed spec fn limit(&self) -> nat {
        self.limit as nat
    }

    /// The addresses handed out for fetching so far, oldest first.
    pub closed spec fn visited(&self) -> Seq<Seq<char>> {
        texts(self.visited@)
    }

    /// The links still to be looked at; the last one is looked at first.
    pub closed spec fn pending(&self) -> Seq<Seq<char>> {
        texts(self.pending@)
    }

    /// The address handed out last, while its page has not been recorded.
    pub closed spec fn current(&self) -> Option<Seq<char>> {
        opt_text(self.current)
    }

    /// The records made so far, in the order the pages were fetched.
    pub closed spec fn records(&self) -> Seq<SeoReport> {
        self.reports@
    }

    /// A page is awaited whose address is an absolute URL: what arrives for
    /// it is recorded.
    pub open spec fn awaits_page(&self) -> bool {
        match self.current() {
            Some(url) => parsed_url(url) is Some,
            None => false,
        }
    }

    /// How many more pages the crawl may still visit.
    pub open spec fn budget_left(&self) -> nat {
        (self.limit() - self.visited().len()) as nat
    }

    /// What holds of a crawl at all times.
    pub open spec fn wf(&self) -> bool {
        &&& self.visited().no_duplicates()
        &&& self.visited().len() <= self.limit()
        &&& self.records().len() + (if self.current() is Some {
            1nat
        } else {
            0nat
        }) <= self.visited().len()
        &&& forall|k: int| 0 <= k < self.pending().len() ==> on_site(self.seed(), #[trigger] self.pending()[k])
        &&& forall|k: int|
            0 <= k < self.records().len() ==> on_site(self.seed(), (#[trigger] self.records()[k]).url@)
        &&& forall|k: int|
            0 <= k < self.records().len() ==> self.visited().contains((#[trigger] self.records()[k]).url@)
        &&& forall|j: int, k: int|
            0 <= j < k < self.records().len() ==> (#[trigger] self.records()[j]).url@ != (
            #[trigger] self.records()[k]).url@
        &&& forall|k: int| 0 <= k < self.records().len() ==> (#[trigger] self.records()[k]).messages_derived()
        &&& forall|k: int|
            0 <= k < self.records().len() ==> parsed_url((#[trigger] self.records()[k]).url@) is Some
        &&& match self.current() {
            Some(url) => {
                &&& on_site(self.seed(), url)
                &&& self.visited().contains(url)
                &&& forall|k: int| 0 <= k < self.records().len() ==> (#[trigger] self.records()[k]).url@ != url
            },
            None => true,
        }
    }

    /// Starts a crawl at `seed` that visits at most `limit` pages.
    pub fn new(seed: &str, limit: usize) -> (crawl: Crawl)
        ensures
            crawl.wf(),
            crawl.seed() == seed@,
            crawl.limit() == limit,
            crawl.visited() == Seq::<Seq<char>>::empty(),
            crawl.pending() == seq![seed@],
            crawl.current() is None,
            crawl.records() == Seq::<SeoReport>::empty(),
    {
        let mut pending: Vec<String> = Vec::new();
        pending.push(seed.to_owned());
        let crawl = Crawl {
            seed: seed.to_owned(),
            limit,
            visited: Vec::new(),
            pending,
            current: None,
            reports: Vec::new(),
        };
        assert(crawl.visited() =~= Seq::<Seq<char>>::empty());
        assert(crawl.pending() =~= seq![seed@]);
        crawl
    }

    /// Picks the next page to fetch, marks it visited and returns its
    /// address; `None` when the crawl is over.
    ///
    /// Nothing is handed out once the budget is used up. Otherwise the pending
    /// links are taken from the end, those already visited are dropped, and
    /// the first one not yet visited is handed out. A page handed out earlier
    /// and never recorded is given up.
    pub fn next_fetch(&mut self) -> (next: Option<String>)
        requires
            old(self).wf(),
        ensures
            final(self).wf(),
            final(self).seed() == old(self).seed(),
            final(self).limit() == old(self).limit(),
            final(self).records() == old(self).records(),
            final(self).current() == opt_text(next),
            match next {
                Some(url) => {
                    let rest = final(self).pending().len() as int;
                    &&& old(self).visited().len() < old(self).limit()
                    &&& !old(self).visited().contains(url@)
                    &&& final(self).visited() == old(self).visited().push(url@)
                    &&& rest < old(self).pending().len()
                    &&& final(self).pending() == old(self).pending().take(rest)
                    &&& url@ == old(self).pending()[rest]
                    &&& forall|k: int|
                        rest < k < old(self).pending().len() ==> old(self).visited().contains(
                            #[trigger] old(self).pending()[k],
                        )
                    &&& final(self).budget_left() < old(self).budget_left()
                },
                None => {
                    &&& final(self).visited() == old(self).visited()
                    &&& if old(self).visited().len() >= old(self).limit() {
                        final(self).pending() == old(self).pending()
                    } else {
                        &&& final(self).pending().len() == 0
                        &&& forall|k: int|
                            0 <= k < old(self).pending().len() ==> old(self).visited().contains(
                                #[trigger] old(self).pending()[k],
                            )
                    }
                },
            },
    {
        self.current = None;
        if self.visited.len() >= self.limit {
            return None;
        }
        while self.pending.len() > 0
            invariant
                self.wf(),
                self.current is None,
                self.seed == old(self).seed,
                self.limit == old(self).limit,
                self.reports == old(self).reports,
                self.visited == old(self).visited,
                self.visited.len() < self.limit,
                self.pending.len() <= old(self).pending.len(),
                self.pending() == old(self).pending().take(self.pending.len() as int),
                forall|k: int|
                    self.pending.len() <= k < old(self).pending().len() ==> old(self).visited().contains(
                        #[trigger] old(self).pending()[k],
                    ),
            decreases self.pending.len(),
        {
            let ghost before = *self;
            let candidate = self.pending.pop().unwrap();
            assert(self.pending() =~= old(self).pending().take(self.pending.len() as int));
            assert(candidate@ == old(self).pending()[self.pending.len() as int]) by {
                assert(before.pending()[self.pending.len() as int] == candidate@);
            }
            assert(on_site(self.seed(), candidate@)) by {
                assert(before.pending()[self.pending.len() as int] == candidate@);
            }
            if !contains_text(&self.visited, &candidate) {
                self.visited.push(candidate.clone());
                self.current = Some(candidate.clone());
                proof {
                    let v0 = before.visited();
                    let v1 = self.visited();
                    assert(v1 =~= v0.push(candidate@));
                    assert(v1.last() == candidate@);
                    assert(v1.contains(candidate@));
                    assert forall|k: int| 0 <= k < self.records().len() implies v1.contains(
                        (#[trigger] self.records()[k]).url@,
                    ) && self.records()[k].url@ != candidate@ by {
                        let u = self.records()[k].url@;
                        assert(v0.contains(u));
                        let w = choose|w: int| 0 <= w < v0.len() && v0[w] == u;
                        assert(v1[w] == u);
                    }
                }
                return Some(candidate);
            }
        }
        assert(self.pending() =~= Seq::<Seq<char>>::empty());
        None
    }

    /// Records the page of the address handed out last, given as its
    /// elements, and queues the links followed from it so that the first in
    /// the document is looked at first. Nothing changes without a page
    /// handed out, or where its address is no absolute URL: nothing can have
    /// been fetched from such an address.
    pub fn record_elements(&mut self, elems: &Vec<HtmlElement>, has_robots: bool, has_sitemap: bool)
        requires
            old(self).wf(),
        ensures
            final(self).wf(),
            final(self).seed() == old(self).seed(),
            final(self).limit() == old(self).limit(),
            final(self).visited() == old(self).visited(),
            final(self).current() is None,
            if old(self).awaits_page() {
                let url = old(self).current().unwrap();
                &&& final(self).records().len() == old(self).records().len() + 1
                &&& final(self).records().drop_last() == old(self).records()
                &&& final(self).records().last().describes_page(url, elems@, has_robots, has_sitemap)
                &&& final(self).pending() == old(self).pending() + reversed(links_followed(url, elems@))
            } else {
                &&& final(self).records() == old(self).records()
                &&& final(self).pending() == old(self).pending()
            },
    {
        let url = match self.current.take() {
            Some(url) => url,
            None => {
                return ;
            },
        };
        if parse_url(url.as_str()).is_none() {
            proof {
                assert(self.records() == old(self).records());
                assert(self.pending() == old(self).pending());
                assert(self.visited() == old(self).visited());
                assert(self.current() is None);
            }
            return ;
        }
        let analysis = analyze_elements(elems, url.as_str());
        let kept = same_host_links(url.as_str(), &analysis.links);
        let ghost signals = analysis.signals;
        let ghost followed = links_followed(url@, elems@);
        assert(texts(kept@) == followed);
        let report = SeoReport::assemble(
            url.clone(),
            analysis.signals,
            analysis.messages,
            has_robots,
            has_sitemap,
        );
        self.reports.push(report);
        assert(self.records().drop_last() =~= old(self).records());
        assert(self.records().last() == report);
        proof {
            let links = texts(analysis.links@);
            lemma_followed_all_follow(url@, links, links.len() as int);
            assert forall|k: int| 0 <= k < followed.len() implies on_site(
                self.seed(),
                #[trigger] followed[k],
            ) by {
                lemma_followed_link_on_site(self.seed(), url@, followed[k]);
            }
            assert forall|j: int, k: int| 0 <= j < k < self.records().len() implies (
            #[trigger] self.records()[j]).url@ != (#[trigger] self.records()[k]).url@ by {
                assert(self.records()[j] == old(self).records()[j]);
                if k < old(self).records().len() {
                    assert(self.records()[k] == old(self).records()[k]);
                } else {
                    assert(self.records()[k] == report);
                    assert(old(self).records()[j].url@ != url@);
                }
            }
            assert forall|k: int| 0 <= k < self.records().len() implies on_site(
                self.seed(),
                (#[trigger] self.records()[k]).url@,
            ) && self.visited().contains(self.records()[k].url@)
                && self.records()[k].messages_derived() && parsed_url(self.records()[k].url@) is Some by {
                if k < old(self).records().len() {
                    assert(self.records()[k] == old(self).records()[k]);
                } else {
                    assert(self.records()[k] == report);
                    assert(old(self).current() == Some(url@));
                }
            }
            assert(self.pending() == old(self).pending());
            assert(self.visited() == old(self).visited());
            assert(self.current() is None);
            assert(self.wf());
        }
        let mut i: usize = kept.len();
        while i > 0
            invariant
                i <= kept.len(),
                self.wf(),
                self.current is None,
                self.seed == old(self).seed,
                self.limit == old(self).limit,
                self.visited == old(self).visited,
                self.reports@ == old(self).reports@.push(report),
                texts(kept@) == followed,
                forall|k: int| 0 <= k < followed.len() ==> on_site(self.seed(), #[trigger] followed[k]),
                self.pending() == old(self).pending() + reversed(followed).take(kept.len() - i),
            decreases i,
        {
            i -= 1;
            let ghost before = self.pending();
            self.pending.push(kept[i].clone());
            assert(self.pending() =~= before.push(followed[i as int]));
            assert(self.pending() =~= old(self).pending() + reversed(followed).take(kept.len() - i));
            assert forall|k: int| 0 <= k < self.pending().len() implies on_site(
                self.seed(),
                #[trigger] self.pending()[k],
            ) by {
                if k < before.len() {
                    assert(self.pending()[k] == before[k]);
                }
            }
        }
        assert(reversed(followed).take(kept.len() as int) =~= reversed(followed));
        assert(self.records().last().describes_page(url@, elems@, has_robots, has_sitemap)) by {
            assert(signals.describes(elems@));
            assert(report.records(url@, signals, has_robots, has_sitemap));
        }
    }

    /// Records the page `html` fetched from the address handed out last.
    pub fn record_page(&mut self, html: &str, has_robots: bool, has_sitemap: bool)
        requires
            old(self).wf(),
        ensures
            final(self).wf(),
            final(self).seed() == old(self).seed(),
            final(self).limit() == old(self).limit(),
            final(self).visited() == old(self).visited(),
            final(self).current() is None,
            if old(self).awaits_page() {
                let url = old(self).current().unwrap();
                let elems = html_elements(html@);
                &&& final(self).records().len() == old(self).records().len() + 1
                &&& final(self).records().drop_last() == old(self).records()
                &&& final(self).records().last().describes_page(url, elems, has_robots, has_sitemap)
                &&& final(self).pending() == old(self).pending() + reversed(links_followed(url, elems))
            } else {
                &&& final(self).records() == old(self).records()
                &&& final(self).pending() == old(self).pending()
            },
    {
        let elems = parse_elements(html);
        self.record_elements(&elems, has_robots, has_sitemap);
    }

    /// No address is visited twice, and neither the visits nor the records
    /// ever outnumber the limit.
    pub proof fn lemma_visits_distinct_and_bounded(self)
        requires
            self.wf(),
        ensures
            self.visited().no_duplicates(),
            self.visited().len() <= self.limit(),
            self.records().len() <= self.limit(),
            forall|j: int, k: int|
                0 <= j < k < self.records().len() ==> (#[trigger] self.records()[j]).url@ != (
                #[trigger] self.records()[k]).url@,
    {
    }

    /// The address of every record is an absolute URL, and its findings are
    /// the ones that its fields give rise to.
    pub proof fn lemma_records_sound(self)
        requires
            self.wf(),
        ensures
            forall|k: int|
                0 <= k < self.records().len() ==> parsed_url((#[trigger] self.records()[k]).url@) is Some,
            forall|k: int| 0 <= k < self.records().len() ==> (#[trigger] self.records()[k]).messages_derived(),
    {
    }

    /// Every record is of the seed itself or of a page whose host contains
    /// the seed's host. Where the seed has a host, every record passes the
    /// same-host rule against the seed.
    pub proof fn lemma_records_on_site(self)
        requires
            self.wf(),
        ensures
            forall|k: int|
                0 <= k < self.records().len() ==> on_site(self.seed(), (#[trigger] self.records()[k]).url@),
            host_of(self.seed()) is Some ==> forall|k: int|
                0 <= k < self.records().len() ==> follows(self.seed(), (#[trigger] self.records()[k]).url@),
    {
        if host_of(self.seed()) is Some {
            lemma_follows_refl(self.seed());
        }
    }

    /// The records made so far.
    pub fn reports(&self) -> (reports: &Vec<SeoReport>)
        ensures
            reports@ == self.records(),
    {
        &self.reports
    }

    /// Ends the crawl and hands over its records.
    pub fn into_reports(self) -> (reports: Vec<SeoReport>)
        ensures
            reports@ == self.records(),
    {
        self.reports
    }

    /// How many addresses have been handed out for fetching.
    pub fn visited_count(&self) -> (count: usize)
        ensures
            count == self.visited().len(),
    {
        self.visited.len()
    }

    /// The ceiling on the number of pages visited.
    pub fn page_limit(&self) -> (limit: usize)
        ensures
            limit == self.limit(),
    {
        self.limit
    }
}

} // verus!
