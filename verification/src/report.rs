//! The record that the crawl keeps of each page.

use vstd::prelude::*;
use vstd::string::*;
use crate::analyze::{canonical_of, description_of, message_lines, missing_alt_upto, title_of, PageSignals};
use crate::html::HtmlElement;
use crate::text::{opt_text, texts};

verus! {

/// The signals of one successfully fetched page.
pub struct SeoReport {
    pub url: String,
    pub title: Option<String>,
    pub meta_description: Option<String>,
    pub canonical: Option<String>,
    pub missing_alt_count: usize,
    pub has_robots: bool,
    pub has_sitemap: bool,
    pub messages: Vec<String>,
}

impl SeoReport {
    /// The findings are the ones that the record's own fields give rise to.
    pub open spec fn messages_derived(&self) -> bool {
        texts(self.messages@) == message_lines(
            opt_text(self.title),
            opt_text(self.meta_description),
            opt_text(self.canonical),
            self.missing_alt_count as nat,
        )
    }

    /// The record is the one of the page at `url` with the given signals and
    /// probe outcomes.
    pub open spec fn records(
        &self,
        url: Seq<char>,
        signals: PageSignals,
        has_robots: bool,
        has_sitemap: bool,
    ) -> bool {
        &&& self.url@ == url
        &&& opt_text(self.title) == opt_text(signals.title)
        &&& opt_text(self.meta_description) == opt_text(signals.meta_description)
        &&& opt_text(self.canonical) == opt_text(signals.canonical)
        &&& self.missing_alt_count == signals.missing_alt_count
        &&& self.has_robots == has_robots
        &&& self.has_sitemap == has_sitemap
        &&& self.messages_derived()
    }

    /// The record is the one of the page at `url` with the elements `elems`
    /// and the given probe outcomes.
    pub open spec fn describes_page(
        &self,
        url: Seq<char>,
        elems: Seq<HtmlElement>,
        has_robots: bool,
        has_sitemap: bool,
    ) -> bool {
        &&& self.url@ == url
        &&& opt_text(self.title) == title_of(elems)
        &&& opt_text(self.meta_description) == description_of(elems)
        &&& opt_text(self.canonical) == canonical_of(elems)
        &&& self.missing_alt_count == missing_alt_upto(elems, elems.len() as int)
        &&& self.has_robots == has_robots
        &&& self.has_sitemap == has_sitemap
        &&& self.messages_derived()
    }

    /// Assembles the record of the page at `url`.
    pub fn assemble(
        url: String,
        signals: PageSignals,
        messages: Vec<String>,
        has_robots: bool,
        has_sitemap: bool,
    ) -> (report: SeoReport)
        requires
            texts(messages@) == signals.lines(),
        ensures
            report.records(url@, signals, has_robots, has_sitemap),
            report.url == url,
    {
        SeoReport {
            url,
            title: signals.title,
            meta_description: signals.meta_description,
            canonical: signals.canonical,
            missing_alt_count: signals.missing_alt_count,
            has_robots,
            has_sitemap,
            messages,
        }
    }
}

/// How a truth value is written in a rendered report.
pub open spec fn bool_text(b: bool) -> Seq<char> {
    if b {
        "true"@
    } else {
        "false"@
    }
}

/// The paragraphs of one record in a rendered report: a heading with the
/// address, the findings, and one line for each presence probe.
pub open spec fn report_paragraphs(report: SeoReport) -> Seq<Seq<char>> {
    seq!["SEO Report for "@ + report.url@] + texts(report.messages@) + seq![
        "robots.txt found: "@ + bool_text(report.has_robots),
        "sitemap.xml found: "@ + bool_text(report.has_sitemap),
    ]
}

fn bool_word(b: bool) -> (r: &'static str)
    ensures
        r@ == bool_text(b),
{
    if b {
        "true"
    } else {
        "false"
    }
}

/// Writes the paragraphs of one record for rendering.
pub fn report_lines(report: &SeoReport) -> (lines: Vec<String>)
    ensures
        texts(lines@) == report_paragraphs(*report),
{
    let mut lines: Vec<String> = Vec::new();
    lines.push(String::from_str("SEO Report for ").concat(report.url.as_str()));
    let mut i: usize = 0;
    while i < report.messages.len()
        invariant
            i <= report.messages.len(),
            texts(lines@) == seq!["SEO Report for "@ + report.url@] + texts(report.messages@).take(
                i as int,
            ),
        decreases report.messages.len() - i,
    {
        let ghost before = lines@;
        lines.push(report.messages[i].clone());
        i += 1;
        assert(texts(lines@) =~= texts(before).push(report.messages@[i - 1]@));
        assert(texts(lines@) =~= seq!["SEO Report for "@ + report.url@] + texts(
            report.messages@,
        ).take(i as int));
    }
    lines.push(String::from_str("robots.txt found: ").concat(bool_word(report.has_robots)));
    lines.push(String::from_str("sitemap.xml found: ").concat(bool_word(report.has_sitemap)));
    assert(texts(report.messages@).take(i as int) =~= texts(report.messages@));
    assert(texts(lines@) =~= report_paragraphs(*report));
    lines
}

} // verus!
