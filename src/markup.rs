//! Markup events, and the parser and serializer that produce and consume them.
//!
//! A page is held as the sequence of events met by walking its parsed tree in
//! document order: an element gives an `Open` when it is entered and a `Close`
//! when it is left, a text node gives `Text`, a comment gives `Comment`, and
//! every other edge of the walk gives `Other`, which renders to nothing.

use html5ever::serialize::{HtmlSerializer, SerializeOpts, Serializer};
use html5ever::{LocalName, Namespace, QualName};
use kuchiki::iter::NodeEdge;
use kuchiki::traits::TendrilSink;
use kuchiki::NodeData;
use Token::{Close, Comment, Open, Other, Text};
use vstd::prelude::*;

verus! {

/// The namespace of HTML elements.
const XHTML: &'static str = "http://www.w3.org/1999/xhtml";

/// One attribute of an element: its local name and its value.
#[derive(Debug)]
pub struct Attr {
    pub name: String,
    pub value: String,
}

/// One event of the document-order walk of a parsed page.
#[derive(Debug)]
pub enum Token {
    Open(String, Vec<Attr>),
    Close(String),
    Text(String),
    Comment(String),
    Other,
}

/// The attributes as plain (name, value) pairs.
pub open spec fn attr_pairs(attrs: Seq<Attr>) -> Seq<(Seq<char>, Seq<char>)> {
    attrs.map_values(|a: Attr| (a.name@, a.value@))
}

/// The events that the document-order walk of the parsed page yields.
pub uninterp spec fn page_events(html: Seq<char>) -> Seq<Token>;

/// The markup that opens an element with these attributes.
pub uninterp spec fn open_markup(name: Seq<char>, attrs: Seq<(Seq<char>, Seq<char>)>) -> Seq<char>;

/// The HTML elements that html5ever writes without an end tag.
pub open spec fn is_void(name: Seq<char>) -> bool {
    name == "area"@
    || name == "base"@
    || name == "basefont"@
    || name == "bgsound"@
    || name == "br"@
    || name == "col"@
    || name == "embed"@
    || name == "frame"@
    || name == "hr"@
    || name == "img"@
    || name == "input"@
    || name == "keygen"@
    || name == "link"@
    || name == "meta"@
    || name == "param"@
    || name == "source"@
    || name == "track"@
    || name == "wbr"@
}

/// The markup that closes an element: nothing for a void element.
pub open spec fn close_markup(name: Seq<char>) -> Seq<char> {
    if is_void(name) {
        Seq::empty()
    } else {
        "</"@ + name + ">"@
    }
}

/// The markup of a text node whose parent element has the given name.
pub uninterp spec fn text_markup(parent: Seq<char>, text: Seq<char>) -> Seq<char>;

/// The markup of a comment.
pub open spec fn comment_markup(text: Seq<char>) -> Seq<char> {
    "<!--"@ + text + "-->"@
}

/// Relies on `kuchiki::parse_html` and `NodeRef::traverse`: the page is parsed
/// and its tree walked in document order, one event per edge of the walk.
#[verifier::external_body]
pub(crate) fn parse_events(html: &str) -> (r: Vec<Token>)
    ensures
        r@ == page_events(html@),
{
    let doc = kuchiki::parse_html().one(html);
    doc.traverse().map(|edge| match edge {
        NodeEdge::Start(n) => match n.data() {
            NodeData::Element(e) => Open(e.name.local.to_string(), e.attributes.borrow().map.iter()
                .map(|(k, v)| Attr { name: k.local.to_string(), value: v.value.clone() }).collect()),
            NodeData::Text(t) => Text(t.borrow().clone()),
            NodeData::Comment(c) => Comment(c.borrow().clone()),
            _ => Other,
        },
        NodeEdge::End(n) => n.as_element().map_or(Other, |e| Close(e.name.local.to_string())),
    }).collect()
}

/// Relies on html5ever's `HtmlSerializer::start_elem`: the start tag, with each
/// attribute value escaped.
#[verifier::external_body]
pub(crate) fn open_tag(name: &str, attrs: &Vec<Attr>) -> (r: String)
    ensures
        r@ == open_markup(name@, attr_pairs(attrs@)),
{
    let names: Vec<QualName> = attrs.iter()
        .map(|a| QualName::new(None, Namespace::from(""), LocalName::from(a.name.as_str()))).collect();
    let mut s = HtmlSerializer::new(Vec::new(), SerializeOpts::default());
    s.start_elem(QualName::new(None, Namespace::from(XHTML), LocalName::from(name)), names.iter().zip(attrs.iter()).map(|(n, a)| (n, a.value.as_str()))).unwrap();
    String::from_utf8(s.writer).unwrap()
}

/// Relies on html5ever's `HtmlSerializer::end_elem`: what it writes when it
/// leaves an element that it entered, which is `</name>`, or nothing for a
/// void element (whose `start_elem` marks it as taking no children).
#[verifier::external_body]
pub(crate) fn close_tag(name: &str) -> (r: String)
    ensures
        r@ == close_markup(name@),
{
    let q = QualName::new(None, Namespace::from(XHTML), LocalName::from(name));
    let mut s = HtmlSerializer::new(Vec::new(), SerializeOpts::default());
    s.start_elem(q.clone(), std::iter::empty()).unwrap();
    s.writer.clear();
    s.end_elem(q).unwrap();
    String::from_utf8(s.writer).unwrap()
}

/// Relies on html5ever's `HtmlSerializer::write_text`: the text, escaped unless
/// the parent element holds raw text.
#[verifier::external_body]
pub(crate) fn text_in(parent: &str, text: &str) -> (r: String)
    ensures
        r@ == text_markup(parent@, text@),
{
    let q = QualName::new(None, Namespace::from(XHTML), LocalName::from(parent));
    let mut s = HtmlSerializer::new(Vec::new(), SerializeOpts::default());
    s.start_elem(q, std::iter::empty()).unwrap();
    s.writer.clear();
    s.write_text(text).unwrap();
    String::from_utf8(s.writer).unwrap()
}

/// Relies on html5ever's `HtmlSerializer::write_comment`: the text between
/// `<!--` and `-->`, unescaped.
#[verifier::external_body]
pub(crate) fn comment(text: &str) -> (r: String)
    ensures
        r@ == comment_markup(text@),
{
    let mut s = HtmlSerializer::new(Vec::new(), SerializeOpts::default());
    s.write_comment(text).unwrap();
    String::from_utf8(s.writer).unwrap()
}

} // verus!
