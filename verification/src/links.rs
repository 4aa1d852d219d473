//! URLs: resolving links, the same-host rule, and the addresses of the
//! presence probes.

use vstd::prelude::*;
use vstd::string::*;
use crate::text::{is_substring, lemma_substring_refl, lemma_substring_trans, opt_text, str_contains, texts};

verus! {

/// What the crawl reads of a parsed URL.
pub struct UrlParts {
    pub scheme: String,
    pub host: Option<String>,
}

/// What parsing `text` as an absolute URL gives; `None` where it is none.
pub uninterp spec fn parsed_url(text: Seq<char>) -> Option<UrlParts>;

/// The absolute URL that `href` denotes on the page at `base`; `None` where
/// `base` is no absolute URL or `href` cannot be resolved against it.
pub uninterp spec fn joined_url(base: Seq<char>, href: Seq<char>) -> Option<String>;

/// Parses `text` with `url::Url::parse` and copies `Url::scheme` and
/// `Url::host_str` out of the result. A parse error becomes `None`. The
/// contract only gives the outcome a name.
#[verifier::external_body]
pub(crate) fn parse_url(text: &str) -> (parts: Option<UrlParts>)
    ensures
        parts == parsed_url(text@),
{
    let parsed = url::Url::parse(text).ok()?;
    Some(UrlParts { scheme: parsed.scheme().to_string(), host: parsed.host_str().map(|h| h.to_string()) })
}

/// Parses `base` with `url::Url::parse`, resolves `href` against it with
/// `Url::join` and returns the serialization of the result. An error of
/// either step becomes `None`. The contract only gives the outcome a name.
#[verifier::external_body]
pub(crate) fn join_url(base: &str, href: &str) -> (link: Option<String>)
    ensures
        link == joined_url(base@, href@),
{
    let parsed = url::Url::parse(base).ok()?;
    parsed.join(href).ok().map(|joined| joined.to_string())
}

/// The host of the URL `text`, where it parses and has one.
pub open spec fn host_of(text: Seq<char>) -> Option<Seq<char>> {
    match parsed_url(text) {
        Some(parts) => opt_text(parts.host),
        None => None,
    }
}

/// The same-host rule on two hosts: the link has a host and the page's host
/// occurs in it.
pub open spec fn host_matches(page_host: Seq<char>, link_host: Option<Seq<char>>) -> bool {
    match link_host {
        Some(h) => is_substring(page_host, h),
        None => false,
    }
}

/// A link found on `page` is followed: both have a host and the page's host
/// occurs in the link's.
pub open spec fn follows(page: Seq<char>, link: Seq<char>) -> bool {
    match host_of(page) {
        Some(page_host) => host_matches(page_host, host_of(link)),
        None => false,
    }
}

/// `url` belongs to the site of `seed`: it is the seed itself, or the seed's
/// host occurs in its host.
pub open spec fn on_site(seed: Seq<char>, url: Seq<char>) -> bool {
    url == seed || follows(seed, url)
}

/// A link followed from a page of the seed's site belongs to that site too.
pub proof fn lemma_followed_link_on_site(seed: Seq<char>, page: Seq<char>, link: Seq<char>)
    requires
        on_site(seed, page),
        follows(page, link),
    ensures
        on_site(seed, link),
{
    if page != seed {
        lemma_substring_trans(host_of(seed).unwrap(), host_of(page).unwrap(), host_of(link).unwrap());
    }
}

/// A page that has a host passes the same-host rule against itself.
pub proof fn lemma_follows_refl(page: Seq<char>)
    requires
        host_of(page) is Some,
    ensures
        follows(page, page),
{
    lemma_substring_refl(host_of(page).unwrap());
}

/// Applies the same-host rule to the host of the current page and the parts
/// of a resolved link.
pub fn link_on_host(page_host: &str, link: &Option<UrlParts>) -> (r: bool)
    ensures
        r == host_matches(
            page_host@,
            match *link {
                Some(parts) => opt_text(parts.host),
                None => None,
            },
        ),
{
    match link {
        Some(parts) => match &parts.host {
            Some(h) => str_contains(h.as_str(), page_host),
            None => false,
        },
        None => false,
    }
}

/// Tells whether a crawl that stands on `page_url` follows `link`.
pub fn should_follow(page_url: &str, link: &str) -> (r: bool)
    ensures
        r == follows(page_url@, link@),
{
    match parse_url(page_url) {
        Some(page) => match &page.host {
            Some(page_host) => {
                let target = parse_url(link);
                link_on_host(page_host.as_str(), &target)
            },
            None => false,
        },
        None => false,
    }
}

/// The links among the first `n` of `hrefs` that resolve against `page`,
/// each resolved, in order.
pub open spec fn resolved_upto(page: Seq<char>, hrefs: Seq<Seq<char>>, n: int) -> Seq<Seq<char>>
    decreases n,
{
    if n <= 0 {
        Seq::empty()
    } else {
        let before = resolved_upto(page, hrefs, n - 1);
        match joined_url(page, hrefs[n - 1]) {
            Some(link) => before.push(link@),
            None => before,
        }
    }
}

/// Resolves every `href` against `page_url` and drops those that do not
/// resolve.
pub fn resolve_links(page_url: &str, hrefs: &Vec<String>) -> (links: Vec<String>)
    ensures
        texts(links@) == resolved_upto(page_url@, texts(hrefs@), hrefs@.len() as int),
{
    let mut links: Vec<String> = Vec::new();
    let mut i: usize = 0;
    assert(texts(links@) =~= resolved_upto(page_url@, texts(hrefs@), 0));
    while i < hrefs.len()
        invariant
            i <= hrefs.len(),
            texts(links@) == resolved_upto(page_url@, texts(hrefs@), i as int),
        decreases hrefs.len() - i,
    {
        let ghost before = links@;
        match join_url(page_url, hrefs[i].as_str()) {
            Some(link) => {
                links.push(link);
                assert(texts(links@) =~= texts(before).push(link@));
            },
            None => {},
        }
        i += 1;
    }
    links
}

/// The links among the first `n` of `links` that a crawl standing on `page`
/// follows, in order.
pub open spec fn followed_upto(page: Seq<char>, links: Seq<Seq<char>>, n: int) -> Seq<Seq<char>>
    decreases n,
{
    if n <= 0 {
        Seq::empty()
    } else {
        let before = followed_upto(page, links, n - 1);
        if follows(page, links[n - 1]) {
            before.push(links[n - 1])
        } else {
            before
        }
    }
}

/// Everything in `followed_upto` passed the same-host rule.
pub proof fn lemma_followed_all_follow(page: Seq<char>, links: Seq<Seq<char>>, n: int)
    requires
        n <= links.len(),
    ensures
        forall|k: int|
            0 <= k < followed_upto(page, links, n).len() ==> follows(
                page,
                #[trigger] followed_upto(page, links, n)[k],
            ),
    decreases n,
{
    if n > 0 {
        lemma_followed_all_follow(page, links, n - 1);
        let before = followed_upto(page, links, n - 1);
        let all = followed_upto(page, links, n);
        assert forall|k: int| 0 <= k < all.len() implies follows(page, #[trigger] all[k]) by {
            if k < before.len() {
                assert(all[k] == before[k]);
            }
        }
    }
}

/// Keeps the links that pass the same-host rule against `page_url`.
pub fn same_host_links(page_url: &str, links: &Vec<String>) -> (kept: Vec<String>)
    ensures
        texts(kept@) == followed_upto(page_url@, texts(links@), links@.len() as int),
{
    let mut kept: Vec<String> = Vec::new();
    assert(texts(kept@) =~= followed_upto(page_url@, texts(links@), 0));
    let page = parse_url(page_url);
    let mut i: usize = 0;
    while i < links.len()
        invariant
            i <= links.len(),
            page == parsed_url(page_url@),
            texts(kept@) == followed_upto(page_url@, texts(links@), i as int),
        decreases links.len() - i,
    {
        let ghost before = kept@;
        let follow = match &page {
            Some(parts) => match &parts.host {
                Some(page_host) => {
                    let target = parse_url(links[i].as_str());
                    link_on_host(page_host.as_str(), &target)
                },
                None => false,
            },
            None => false,
        };
        if follow {
            kept.push(links[i].clone());
            assert(texts(kept@) =~= texts(before).push(links@[i as int]@));
        }
        i += 1;
    }
    kept
}

/// The address of the presence probe for `path` on the host of `page`:
/// scheme, `://`, host, `/` and the path.
pub open spec fn probe_target(page: Seq<char>, path: Seq<char>) -> Option<Seq<char>> {
    match parsed_url(page) {
        Some(parts) => probe_address(parts, path),
        None => None,
    }
}

/// The probe address from the parts of the page's URL; none without a host.
pub open spec fn probe_address(parts: UrlParts, path: Seq<char>) -> Option<Seq<char>> {
    match parts.host {
        Some(host) => Some(parts.scheme@ + "://"@ + host@ + "/"@ + path),
        None => None,
    }
}

/// Builds the probe address for `path` from the parts of the page's URL.
pub fn probe_url_from(parts: &UrlParts, path: &str) -> (r: Option<String>)
    ensures
        opt_text(r) == probe_address(*parts, path@),
{
    match &parts.host {
        Some(host) => {
            let mut address = parts.scheme.clone();
            address.append("://");
            address.append(host.as_str());
            address.append("/");
            address.append(path);
            Some(address)
        },
        None => None,
    }
}

/// Builds the address of the presence probe for `path` on the host of
/// `page_url`. There is none where `page_url` does not parse or has no host.
pub fn probe_url(page_url: &str, path: &str) -> (r: Option<String>)
    ensures
        opt_text(r) == probe_target(page_url@, path@),
{
    match parse_url(page_url) {
        Some(parts) => probe_url_from(&parts, path),
        None => None,
    }
}

/// The address at which the robots file of the page's host is probed.
pub fn robots_url(page_url: &str) -> (r: Option<String>)
    ensures
        opt_text(r) == probe_target(page_url@, "robots.txt"@),
{
    probe_url(page_url, "robots.txt")
}

/// The address at which the sitemap of the page's host is probed.
pub fn sitemap_url(page_url: &str) -> (r: Option<String>)
    ensures
        opt_text(r) == probe_target(page_url@, "sitemap.xml"@),
{
    probe_url(page_url, "sitemap.xml")
}

} // verus!
