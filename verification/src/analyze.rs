//! Reading the SEO signals and the outbound links out of a page.

use vstd::prelude::*;
use vstd::string::*;
use crate::html::{html_elements, parse_elements, HtmlElement};
use crate::links::{resolve_links, resolved_upto};
use crate::text::{decimal, decimal_string, opt_text, texts};

verus! {

/// The index of the first element called `name` among `elems[from..]`.
pub open spec fn first_named_from(elems: Seq<HtmlElement>, name: Seq<char>, from: int) -> Option<
    int,
>
    decreases elems.len() - from,
{
    if from < 0 || from >= elems.len() {
        None
    } else if elems[from].is_named(name) {
        Some(from)
    } else {
        first_named_from(elems, name, from + 1)
    }
}

/// The index of the first element among `elems[from..]` whose attribute
/// `key` has the value `value`.
pub open spec fn first_with_attr_from(
    elems: Seq<HtmlElement>,
    key: Seq<char>,
    value: Seq<char>,
    from: int,
) -> Option<int>
    decreases elems.len() - from,
{
    if from < 0 || from >= elems.len() {
        None
    } else if elems[from].attr(key) == Some(value) {
        Some(from)
    } else {
        first_with_attr_from(elems, key, value, from + 1)
    }
}

/// The text of the first `title` element.
pub open spec fn title_of(elems: Seq<HtmlElement>) -> Option<Seq<char>> {
    match first_named_from(elems, "title"@, 0) {
        Some(i) => Some(elems[i].text@),
        None => None,
    }
}

/// The attribute `wanted` of the first element whose attribute `key` has the
/// value `value`. Absent where there is no such element, and where that
/// element lacks `wanted`.
pub open spec fn attr_of_first(
    elems: Seq<HtmlElement>,
    key: Seq<char>,
    value: Seq<char>,
    wanted: Seq<char>,
) -> Option<Seq<char>> {
    match first_with_attr_from(elems, key, value, 0) {
        Some(i) => elems[i].attr(wanted),
        None => None,
    }
}

/// The `content` of the first element whose `name` is `description`.
pub open spec fn description_of(elems: Seq<HtmlElement>) -> Option<Seq<char>> {
    attr_of_first(elems, "name"@, "description"@, "content"@)
}

/// The `href` of the first element whose `rel` is `canonical`.
pub open spec fn canonical_of(elems: Seq<HtmlElement>) -> Option<Seq<char>> {
    attr_of_first(elems, "rel"@, "canonical"@, "href"@)
}

/// How many of the first `n` elements are an `img` without an `alt`
/// attribute. An empty `alt` counts as present.
pub open spec fn missing_alt_upto(elems: Seq<HtmlElement>, n: int) -> nat
    decreases n,
{
    if n <= 0 {
        0
    } else if elems[n - 1].is_named("img"@) && elems[n - 1].attr("alt"@) is None {
        missing_alt_upto(elems, n - 1) + 1
    } else {
        missing_alt_upto(elems, n - 1)
    }
}

/// The `href` values of the anchors among the first `n` elements, in order.
pub open spec fn hrefs_upto(elems: Seq<HtmlElement>, n: int) -> Seq<Seq<char>>
    decreases n,
{
    if n <= 0 {
        Seq::empty()
    } else {
        let before = hrefs_upto(elems, n - 1);
        if elems[n - 1].is_named("a"@) {
            match elems[n - 1].attr("href"@) {
                Some(href) => before.push(href),
                None => before,
            }
        } else {
            before
        }
    }
}

/// Finds the first element called `name`.
pub fn first_named(elems: &Vec<HtmlElement>, name: &str) -> (found: Option<usize>)
    ensures
        first_named_from(elems@, name@, 0) == match found {
            Some(i) => Some(i as int),
            None => None,
        },
        found matches Some(i) ==> i < elems@.len(),
{
    let mut i: usize = 0;
    while i < elems.len()
        invariant
            i <= elems.len(),
            first_named_from(elems@, name@, 0) == first_named_from(elems@, name@, i as int),
        decreases elems.len() - i,
    {
        if elems[i].has_name(name) {
            return Some(i);
        }
        i += 1;
    }
    None
}

/// Finds the first element whose attribute `key` has the value `value`.
pub fn first_with_attr(elems: &Vec<HtmlElement>, key: &str, value: &str) -> (found: Option<usize>)
    ensures
        first_with_attr_from(elems@, key@, value@, 0) == match found {
            Some(i) => Some(i as int),
            None => None,
        },
        found matches Some(i) ==> i < elems@.len(),
{
    let wanted = value.to_owned();
    let mut i: usize = 0;
    while i < elems.len()
        invariant
            i <= elems.len(),
            wanted@ == value@,
            first_with_attr_from(elems@, key@, value@, 0) == first_with_attr_from(
                elems@,
                key@,
                value@,
                i as int,
            ),
        decreases elems.len() - i,
    {
        let matched = match elems[i].attribute(key) {
            Some(v) => *v == wanted,
            None => false,
        };
        if matched {
            return Some(i);
        }
        i += 1;
    }
    None
}

/// The text of the first `title` element, if the page has one.
pub fn page_title(elems: &Vec<HtmlElement>) -> (title: Option<String>)
    ensures
        opt_text(title) == title_of(elems@),
{
    match first_named(elems, "title") {
        Some(i) => Some(elems[i].text.clone()),
        None => None,
    }
}

/// The attribute `wanted` of the first element whose attribute `key` is
/// `value`.
pub fn first_attr_of(elems: &Vec<HtmlElement>, key: &str, value: &str, wanted: &str) -> (r: Option<
    String,
>)
    ensures
        opt_text(r) == attr_of_first(elems@, key@, value@, wanted@),
{
    match first_with_attr(elems, key, value) {
        Some(i) => match elems[i].attribute(wanted) {
            Some(v) => Some(v.clone()),
            None => None,
        },
        None => None,
    }
}

/// Counts the `img` elements that have no `alt` attribute.
pub fn count_missing_alt(elems: &Vec<HtmlElement>) -> (count: usize)
    ensures
        count == missing_alt_upto(elems@, elems@.len() as int),
{
    let mut count: usize = 0;
    let mut i: usize = 0;
    while i < elems.len()
        invariant
            i <= elems.len(),
            count <= i,
            count == missing_alt_upto(elems@, i as int),
        decreases elems.len() - i,
    {
        if elems[i].has_name("img") && elems[i].attribute("alt").is_none() {
            count += 1;
        }
        i += 1;
    }
    count
}

/// Collects the `href` of every anchor that has one, in document order.
pub fn anchor_hrefs(elems: &Vec<HtmlElement>) -> (hrefs: Vec<String>)
    ensures
        texts(hrefs@) == hrefs_upto(elems@, elems@.len() as int),
{
    let mut hrefs: Vec<String> = Vec::new();
    assert(texts(hrefs@) =~= hrefs_upto(elems@, 0));
    let mut i: usize = 0;
    while i < elems.len()
        invariant
            i <= elems.len(),
            texts(hrefs@) == hrefs_upto(elems@, i as int),
        decreases elems.len() - i,
    {
        let ghost before = hrefs@;
        if elems[i].has_name("a") {
            match elems[i].attribute("href") {
                Some(href) => {
                    hrefs.push(href.clone());
                    assert(texts(hrefs@) =~= texts(before).push(href@));
                },
                None => {},
            }
        }
        i += 1;
    }
    hrefs
}

/// The signals read from one page.
pub struct PageSignals {
    pub title: Option<String>,
    pub meta_description: Option<String>,
    pub canonical: Option<String>,
    pub missing_alt_count: usize,
}

impl PageSignals {
    /// The signals are those of a page with the elements `elems`.
    pub open spec fn describes(&self, elems: Seq<HtmlElement>) -> bool {
        &&& opt_text(self.title) == title_of(elems)
        &&& opt_text(self.meta_description) == description_of(elems)
        &&& opt_text(self.canonical) == canonical_of(elems)
        &&& self.missing_alt_count == missing_alt_upto(elems, elems.len() as int)
    }

    /// The findings that these signals give rise to.
    pub open spec fn lines(&self) -> Seq<Seq<char>> {
        message_lines(
            opt_text(self.title),
            opt_text(self.meta_description),
            opt_text(self.canonical),
            self.missing_alt_count as nat,
        )
    }
}

/// Reads the signals out of the elements of a page.
pub fn page_signals(elems: &Vec<HtmlElement>) -> (signals: PageSignals)
    ensures
        signals.describes(elems@),
{
    PageSignals {
        title: page_title(elems),
        meta_description: first_attr_of(elems, "name", "description", "content"),
        canonical: first_attr_of(elems, "rel", "canonical", "href"),
        missing_alt_count: count_missing_alt(elems),
    }
}

/// The finding on the title.
pub open spec fn title_line(title: Option<Seq<char>>) -> Seq<char> {
    match title {
        Some(t) => "✅ Title found: "@ + t,
        None => "⚠️ Missing <title> tag"@,
    }
}

/// The finding on the meta description: missing, empty or found.
pub open spec fn description_line(description: Option<Seq<char>>) -> Seq<char> {
    match description {
        Some(d) => if d.len() == 0 {
            "⚠️ Empty meta description"@
        } else {
            "✅ Meta description found"@
        },
        None => "⚠️ Missing meta description"@,
    }
}

/// The finding on the canonical link.
pub open spec fn canonical_line(canonical: Option<Seq<char>>) -> Seq<char> {
    match canonical {
        Some(c) => "✅ Canonical tag: "@ + c,
        None => "⚠️ Missing canonical tag"@,
    }
}

/// The finding on images without alternative text.
pub open spec fn alt_line(missing: nat) -> Seq<char> {
    "✅ Images missing alt text: "@ + decimal(missing)
}

/// The four findings of a page, in their fixed order.
pub open spec fn message_lines(
    title: Option<Seq<char>>,
    description: Option<Seq<char>>,
    canonical: Option<Seq<char>>,
    missing: nat,
) -> Seq<Seq<char>> {
    seq![
        title_line(title),
        description_line(description),
        canonical_line(canonical),
        alt_line(missing),
    ]
}

/// Writes the findings that the signals give rise to.
pub fn messages_for(signals: &PageSignals) -> (messages: Vec<String>)
    ensures
        texts(messages@) == signals.lines(),
{
    let title = match &signals.title {
        Some(t) => String::from_str("✅ Title found: ").concat(t.as_str()),
        None => String::from_str("⚠️ Missing <title> tag"),
    };
    let description = match &signals.meta_description {
        Some(d) => if d.as_str().is_empty() {
            String::from_str("⚠️ Empty meta description")
        } else {
            String::from_str("✅ Meta description found")
        },
        None => String::from_str("⚠️ Missing meta description"),
    };
    let canonical = match &signals.canonical {
        Some(c) => String::from_str("✅ Canonical tag: ").concat(c.as_str()),
        None => String::from_str("⚠️ Missing canonical tag"),
    };
    let count = decimal_string(signals.missing_alt_count);
    let alt = String::from_str("✅ Images missing alt text: ").concat(count.as_str());
    let mut messages: Vec<String> = Vec::new();
    messages.push(title);
    messages.push(description);
    messages.push(canonical);
    messages.push(alt);
    assert(texts(messages@) =~= signals.lines());
    messages
}

/// What the analysis of one page yields: its signals, the findings derived
/// from them, and the links of the page that resolve, each resolved against
/// the page's own address.
pub struct PageAnalysis {
    pub signals: PageSignals,
    pub messages: Vec<String>,
    pub links: Vec<String>,
}

impl PageAnalysis {
    /// The analysis is that of a page at `page` with the elements `elems`.
    pub open spec fn describes(&self, elems: Seq<HtmlElement>, page: Seq<char>) -> bool {
        let hrefs = hrefs_upto(elems, elems.len() as int);
        &&& self.signals.describes(elems)
        &&& texts(self.messages@) == self.signals.lines()
        &&& texts(self.links@) == resolved_upto(page, hrefs, hrefs.len() as int)
    }
}

/// Analyzes a page given as its elements.
pub fn analyze_elements(elems: &Vec<HtmlElement>, page_url: &str) -> (analysis: PageAnalysis)
    ensures
        analysis.describes(elems@, page_url@),
{
    let signals = page_signals(elems);
    let messages = messages_for(&signals);
    let hrefs = anchor_hrefs(elems);
    let links = resolve_links(page_url, &hrefs);
    PageAnalysis { signals, messages, links }
}

/// Analyzes the page `html` fetched from `page_url`.
pub fn analyze(html: &str, page_url: &str) -> (analysis: PageAnalysis)
    ensures
        analysis.describes(html_elements(html@), page_url@),
{
    let elems = parse_elements(html);
    analyze_elements(&elems, page_url)
}

} // verus!
