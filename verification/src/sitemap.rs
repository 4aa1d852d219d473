//! Reading the page addresses out of a sitemap.

use vstd::prelude::*;
use crate::text::texts;

verus! {

/// For each match of the regular expression `pattern` in `text`, from left
/// to right and without overlap, what its first capture group matched, or
/// `None` where the group took no part in the match. `None` as a whole where
/// `pattern` is no regular expression.
pub uninterp spec fn regex_first_groups(pattern: Seq<char>, text: Seq<char>) -> Option<
    Seq<Option<String>>,
>;

/// Compiles `pattern` with `regex::Regex::new`, walks the matches in `text`
/// with `Regex::captures_iter` and copies `Captures::get(1)` of each. A
/// pattern that does not compile becomes `None`. The contract only gives the
/// outcome a name.
#[verifier::external_body]
pub(crate) fn first_groups(pattern: &str, text: &str) -> (groups: Option<Vec<Option<String>>>)
    ensures
        regex_first_groups(pattern@, text@) == match groups {
            Some(found) => Some(found@),
            None => None,
        },
{
    let compiled = regex::Regex::new(pattern).ok()?;
    Some(compiled.captures_iter(text).map(|c| c.get(1).map(|m| m.as_str().to_string())).collect())
}

/// The texts that are present among the first `n` of `groups`, in order.
pub open spec fn present_upto(groups: Seq<Option<String>>, n: int) -> Seq<Seq<char>>
    decreases n,
{
    if n <= 0 {
        Seq::empty()
    } else {
        let before = present_upto(groups, n - 1);
        match groups[n - 1] {
            Some(found) => before.push(found@),
            None => before,
        }
    }
}

/// The addresses that a list of capture groups stands for: every group that
/// is present, in order; none where the pattern did not compile.
pub open spec fn captured_urls(groups: Option<Seq<Option<String>>>) -> Seq<Seq<char>> {
    match groups {
        Some(found) => present_upto(found, found.len() as int),
        None => Seq::empty(),
    }
}

/// Collects the groups that are present.
pub fn collect_groups(groups: &Vec<Option<String>>) -> (urls: Vec<String>)
    ensures
        texts(urls@) == present_upto(groups@, groups@.len() as int),
{
    let mut urls: Vec<String> = Vec::new();
    assert(texts(urls@) =~= present_upto(groups@, 0));
    let mut i: usize = 0;
    while i < groups.len()
        invariant
            i <= groups.len(),
            texts(urls@) == present_upto(groups@, i as int),
        decreases groups.len() - i,
    {
        let ghost before = urls@;
        match &groups[i] {
            Some(found) => {
                urls.push(found.clone());
                assert(texts(urls@) =~= texts(before).push(found@));
            },
            None => {},
        }
        i += 1;
    }
    urls
}

/// Extracts the content of every `<loc>` element of a sitemap, in order.
/// Each content is the shortest run of characters, within one line, between
/// `<loc>` and the next `</loc>`.
pub fn extract_urls_from_sitemap(xml: &str) -> (urls: Vec<String>)
    ensures
        texts(urls@) == captured_urls(regex_first_groups("<loc>(.*?)</loc>"@, xml@)),
{
    match first_groups("<loc>(.*?)</loc>", xml) {
        Some(groups) => collect_groups(&groups),
        None => {
            let urls: Vec<String> = Vec::new();
            assert(texts(urls@) =~= Seq::<Seq<char>>::empty());
            urls
        },
    }
}

} // verus!
