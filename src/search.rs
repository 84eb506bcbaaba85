//! The resolver: the address of a song's lyric page, read off a listing of
//! search results, of which only the first link counts.

use crate::extract::{absolute, absolute_link};
use crate::markup::{page_events, parse_events, Token};
use crate::region::{attr_value, find_attr, find_first, find_span, first_in, span_in, Target, Wanted};
use vstd::prelude::*;

verus! {

/// The address searched for lyrics.
pub const SEARCH_URL: &'static str = "https://utaten.com/lyric/search";

/// The class of the element that holds the title of one search result.
pub const RESULT_CLASS: &'static str = "searchResult__title";

/// Why a listing of search results could not be read.
#[derive(PartialEq, Eq, Structural, Debug, Clone, Copy)]
pub enum ParseError {
    /// The first result link has no `href` attribute.
    LinkWithoutTarget,
}

/// The position of the first `a` element, in document order, that lies inside
/// an element of class `RESULT_CLASS`, looking from position `p` on.
///
/// Result titles are searched in the order they open. A link inside a title
/// nested in another title is also inside the outer one, and every link inside
/// a title comes before every link of a title that opens after it closes. So
/// when the first title from `p` holds no link, the search goes on after its end.
pub open spec fn first_link_from(toks: Seq<Token>, p: int) -> Option<int>
    decreases toks.len() - p,
{
    if p < 0 || p >= toks.len() {
        None
    } else {
        match span_in(toks, p, toks.len() as int, Wanted::Class(RESULT_CLASS@)) {
            None => None,
            Some((i, j)) => match first_in(toks, i + 1, j, Wanted::Named("a"@)) {
                Some(k) => Some(k),
                None => if j + 1 > p {
                    first_link_from(toks, j + 1)
                } else {
                    None
                },
            },
        }
    }
}

/// What a listing of search results gives: nothing when no result title holds
/// a link; else the `href` of the first such link, made absolute (a path-relative
/// target gets the origin in front, any other target is kept as it is); and a
/// fault when that link has no `href`.
pub open spec fn first_result(toks: Seq<Token>) -> Result<Option<Seq<char>>, ParseError> {
    match first_link_from(toks, 0) {
        None => Ok(None),
        Some(k) => match toks[k] {
            Token::Open(_, attrs) => match attr_value(attrs@, "href"@) {
                Some(h) => Ok(Some(absolute(h))),
                None => Err(ParseError::LinkWithoutTarget),
            },
            _ => Err(ParseError::LinkWithoutTarget),
        },
    }
}

/// A resolver result with the address as plain characters.
pub open spec fn resolved_view(r: Result<Option<String>, ParseError>) -> Result<Option<Seq<char>>, ParseError> {
    match r {
        Ok(Some(s)) => Ok(Some(s@)),
        Ok(None) => Ok(None),
        Err(e) => Err(e),
    }
}

/// A position as a mathematical integer.
pub open spec fn pos_view(r: Option<usize>) -> Option<int> {
    match r {
        Some(k) => Some(k as int),
        None => None,
    }
}

/// The position of the first link inside a result title.
fn first_link(toks: &Vec<Token>) -> (r: Option<usize>)
    ensures
        pos_view(r) == first_link_from(toks@, 0),
        r matches Some(k) ==> k < toks.len(),
{
    let link = Target::Named("a".to_owned());
    let title = Target::Class(RESULT_CLASS.to_owned());
    let mut p: usize = 0;
    while p < toks.len()
        invariant
            p <= toks.len(),
            first_link_from(toks@, p as int) == first_link_from(toks@, 0),
            link@ == Wanted::Named("a"@),
            title@ == Wanted::Class(RESULT_CLASS@),
        decreases toks.len() - p,
    {
        match find_span(toks, p, toks.len(), &title) {
            None => return None,
            Some((i, j)) => match find_first(toks, i + 1, j, &link) {
                Some(k) => return Some(k),
                None => {
                    p = j + 1;
                },
            },
        }
    }
    None
}

/// The address that the first result link of a parsed listing points to.
pub fn first_result_link(toks: &Vec<Token>) -> (r: Result<Option<String>, ParseError>)
    ensures
        resolved_view(r) == first_result(toks@),
{
    let k = match first_link(toks) {
        Some(k) => k,
        None => return Ok(None),
    };
    match &toks[k] {
        Token::Open(_, attrs) => match find_attr(attrs, &"href".to_owned()) {
            Some(h) => Ok(Some(absolute_link(&attrs[h].value))),
            None => Err(ParseError::LinkWithoutTarget),
        },
        _ => Err(ParseError::LinkWithoutTarget),
    }
}

/// The address of the lyric page that a listing of search results points to:
/// none when no result holds a link, a fault when the first link has no target.
pub fn resolve(listing: &str) -> (r: Result<Option<String>, ParseError>)
    ensures
        resolved_view(r) == first_result(page_events(listing@)),
{
    first_result_link(&parse_events(listing))
}

} // verus!
