//! The elements of an HTML page as plain values.

use vstd::prelude::*;

verus! {

/// One attribute of an element.
pub struct HtmlAttribute {
    pub name: String,
    pub value: String,
}

/// One element of a page: its tag name, its attributes in source order, and
/// the text of the element and everything below it.
pub struct HtmlElement {
    pub name: String,
    pub attributes: Vec<HtmlAttribute>,
    pub text: String,
}

/// The elements of the page `html`, in document order, as the HTML parser
/// reports them.
pub uninterp spec fn html_elements(html: Seq<char>) -> Seq<HtmlElement>;

/// Parses `html` with `select::document::Document::from` and walks the
/// element nodes with `Document::find(Element)`, copying `Node::name`,
/// `Node::attrs` and `Node::text` of each. The contract only gives the
/// outcome a name: which elements a text yields is the parser's business.
#[verifier::external_body]
pub(crate) fn parse_elements(html: &str) -> (elements: Vec<HtmlElement>)
    ensures
        elements@ == html_elements(html@),
{
    select::document::Document::from(html)
        .find(select::predicate::Element)
        .map(|node| HtmlElement {
            name: node.name().unwrap_or_default().to_string(),
            attributes: node
                .attrs()
                .map(|(name, value)| HtmlAttribute { name: name.to_string(), value: value.to_string() })
                .collect(),
            text: node.text(),
        })
        .collect()
}

/// The value of the first attribute called `name` among `attrs[from..]`.
pub open spec fn attr_from(attrs: Seq<HtmlAttribute>, name: Seq<char>, from: int) -> Option<
    Seq<char>,
>
    decreases attrs.len() - from,
{
    if from < 0 || from >= attrs.len() {
        None
    } else if attrs[from].name@ == name {
        Some(attrs[from].value@)
    } else {
        attr_from(attrs, name, from + 1)
    }
}

impl HtmlElement {
    /// The value of the first attribute called `name`, if the element has one.
    pub open spec fn attr(&self, name: Seq<char>) -> Option<Seq<char>> {
        attr_from(self.attributes@, name, 0)
    }

    /// Whether the element's tag is `name`.
    pub open spec fn is_named(&self, name: Seq<char>) -> bool {
        self.name@ == name
    }

    /// Looks up the first attribute called `name`.
    pub fn attribute(&self, name: &str) -> (value: Option<&String>)
        ensures
            self.attr(name@) == match value {
                Some(v) => Some(v@),
                None => None,
            },
    {
        let key = name.to_owned();
        let mut i: usize = 0;
        while i < self.attributes.len()
            invariant
                i <= self.attributes.len(),
                key@ == name@,
                self.attr(name@) == attr_from(self.attributes@, name@, i as int),
            decreases self.attributes.len() - i,
        {
            if self.attributes[i].name == key {
                return Some(&self.attributes[i].value);
            }
            i += 1;
        }
        None
    }

    /// Tells whether the element's tag is `name`.
    pub fn has_name(&self, name: &str) -> (r: bool)
        ensures
            r == self.is_named(name@),
    {
        let key = name.to_owned();
        self.name == key
    }
}

} // verus!
