//! The extractor: three regions of a lyrics page, each trimmed of one unwanted
//! part, are rendered in a fixed order into the page's container element.

use crate::markup::{attr_pairs, close_markup, close_tag, comment, comment_markup, open_markup,
    open_tag, parse_events, page_events, text_in, text_markup, Attr, Token};
use crate::region::{as_ints, find_first, find_span, first_in, span_in, Target, Wanted};
use crate::text::{chars_of, push_str, string_of};
use vstd::prelude::*;

verus! {

/// The site that relative links point into.
pub const ORIGIN: &'static str = "https://utaten.com";

/// The site that relative links point into.
pub open spec fn origin() -> Seq<char> {
    ORIGIN@
}

/// A path-relative reference: one leading slash, not two.
pub open spec fn is_relative(h: Seq<char>) -> bool {
    h.len() >= 1 && h[0] == '/' && (h.len() == 1 || h[1] != '/')
}

/// A link target made absolute: a relative one gets the origin in front.
pub open spec fn absolute(h: Seq<char>) -> Seq<char> {
    if is_relative(h) {
        origin() + h
    } else {
        h
    }
}

/// A relative link is made absolute by putting the origin in front of it, and
/// making a link absolute a second time changes nothing: a link is rewritten
/// at most once.
pub proof fn lemma_link_rewritten_once(h: Seq<char>)
    ensures
        is_relative(h) ==> absolute(h) == origin() + h,
        absolute(absolute(h)) == absolute(h),
{
    reveal_strlit("https://utaten.com");
    assert(origin().len() > 0 && origin()[0] == 'h');
    if is_relative(h) {
        assert((origin() + h)[0] == 'h');
    }
}

/// The attributes as rendered: where links are rewritten, the `href` of an
/// `a` element is made absolute.
pub open spec fn shown_attrs(name: Seq<char>, attrs: Seq<Attr>, rewrite: bool) -> Seq<(Seq<char>, Seq<char>)> {
    attrs.map_values(|a: Attr| (a.name@, shown_value(name, a, rewrite)))
}

/// The value of one attribute as rendered.
pub open spec fn shown_value(name: Seq<char>, a: Attr, rewrite: bool) -> Seq<char> {
    if rewrite && name == "a"@ && a.name@ == "href"@ {
        absolute(a.value@)
    } else {
        a.value@
    }
}

/// The innermost open element, or nothing.
pub open spec fn top(stack: Seq<String>) -> Seq<char> {
    if stack.len() == 0 {
        Seq::empty()
    } else {
        stack.last()@
    }
}

/// The markup of one event, given the elements open around it.
pub open spec fn piece(t: Token, rewrite: bool, stack: Seq<String>) -> Seq<char> {
    match t {
        Token::Open(n, a) => open_markup(n@, shown_attrs(n@, a@, rewrite)),
        Token::Close(n) => close_markup(n@),
        Token::Text(s) => text_markup(top(stack), s@),
        Token::Comment(s) => comment_markup(s@),
        Token::Other => Seq::empty(),
    }
}

/// The elements open after the event.
pub open spec fn next_stack(t: Token, stack: Seq<String>) -> Seq<String> {
    match t {
        Token::Open(n, _) => stack.push(n),
        Token::Close(_) => if stack.len() > 0 {
            stack.drop_last()
        } else {
            stack
        },
        _ => stack,
    }
}

/// Position `k` lies outside the part that is cut out.
pub open spec fn kept(k: int, cut: Option<(int, int)>) -> bool {
    match cut {
        Some((a, b)) => k < a || b < k,
        None => true,
    }
}

/// The markup of the events of `[k, hi)` that lie outside `cut`.
pub open spec fn render(toks: Seq<Token>, k: int, hi: int, cut: Option<(int, int)>, rewrite: bool, stack: Seq<String>) -> Seq<char>
    decreases hi - k,
{
    if k >= hi {
        Seq::empty()
    } else if !kept(k, cut) {
        render(toks, k + 1, hi, cut, rewrite, stack)
    } else {
        piece(toks[k], rewrite, stack) + render(toks, k + 1, hi, cut, rewrite, next_stack(toks[k], stack))
    }
}

/// Nothing of the part that is cut out reaches the markup: two event
/// sequences that agree on every kept position of `[k, hi)` render alike,
/// whatever the cut-out part holds.
pub proof fn lemma_cut_part_unread(
    toks: Seq<Token>,
    other: Seq<Token>,
    k: int,
    hi: int,
    cut: Option<(int, int)>,
    rewrite: bool,
    stack: Seq<String>,
)
    requires
        forall|m: int| k <= m < hi && kept(m, cut) ==> toks[m] == other[m],
    ensures
        render(toks, k, hi, cut, rewrite, stack) == render(other, k, hi, cut, rewrite, stack),
    decreases hi - k,
{
    if k < hi {
        if kept(k, cut) {
            assert(toks[k] == other[k]);
            lemma_cut_part_unread(toks, other, k + 1, hi, cut, rewrite, next_stack(toks[k], stack));
        } else {
            lemma_cut_part_unread(toks, other, k + 1, hi, cut, rewrite, stack);
        }
    }
}

/// Where links are rewritten, the `href` of a link is never left
/// path-relative.
pub proof fn lemma_no_relative_link_left(a: Attr)
    requires
        a.name@ == "href"@,
    ensures
        !is_relative(shown_value("a"@, a, true)),
{
    lemma_link_rewritten_once(a.value@);
    reveal_strlit("https://utaten.com");
    if is_relative(a.value@) {
        assert((origin() + a.value@)[0] == 'h');
    }
}

/// A link target made absolute.
pub fn absolute_link(h: &String) -> (r: String)
    ensures
        r@ == absolute(h@),
{
    let cs = chars_of(h.as_str());
    if cs.len() >= 1 && cs[0] == '/' && (cs.len() == 1 || cs[1] != '/') {
        let mut out = chars_of(ORIGIN);
        push_str(&mut out, h.as_str());
        string_of(&out)
    } else {
        h.clone()
    }
}

/// The attributes of an element named `name` as they are rendered.
fn shown(name: &String, attrs: &Vec<Attr>, rewrite: bool) -> (r: Vec<Attr>)
    ensures
        attr_pairs(r@) == shown_attrs(name@, attrs@, rewrite),
{
    let a_name = "a".to_owned();
    let href = "href".to_owned();
    let is_link = rewrite && *name == a_name;
    let mut r: Vec<Attr> = Vec::new();
    let mut k: usize = 0;
    while k < attrs.len()
        invariant
            k <= attrs.len(),
            r.len() == k,
            a_name@ == "a"@,
            href@ == "href"@,
            is_link == (rewrite && name@ == "a"@),
            forall|m: int| 0 <= m < k ==> (#[trigger] r@[m]).name@ == attrs@[m].name@
                && r@[m].value@ == shown_value(name@, attrs@[m], rewrite),
        decreases attrs.len() - k,
    {
        let a = &attrs[k];
        let value = if is_link && a.name == href {
            absolute_link(&a.value)
        } else {
            a.value.clone()
        };
        r.push(Attr { name: a.name.clone(), value });
        k = k + 1;
    }
    assert forall|m: int| 0 <= m < r.len() implies attr_pairs(r@)[m] == shown_attrs(name@, attrs@, rewrite)[m] by {
        assert(r@[m].name@ == attrs@[m].name@);
    }
    assert(attr_pairs(r@) =~= shown_attrs(name@, attrs@, rewrite));
    r
}

/// Appends the markup of the events of `[lo, hi)` that lie outside `cut`,
/// with `parent` as the element around them.
pub fn render_into(
    out: &mut Vec<char>,
    toks: &Vec<Token>,
    lo: usize,
    hi: usize,
    cut: Option<(usize, usize)>,
    rewrite: bool,
    parent: &String,
)
    requires
        lo <= hi <= toks.len(),
    ensures
        final(out)@ == old(out)@ + render(toks@, lo as int, hi as int, as_ints(cut), rewrite, seq![*parent]),
{
    let mut stack: Vec<String> = Vec::new();
    stack.push(parent.clone());
    assert(stack@ =~= seq![*parent]);
    let ghost whole = old(out)@ + render(toks@, lo as int, hi as int, as_ints(cut), rewrite, seq![*parent]);
    let mut k: usize = lo;
    while k < hi
        invariant
            lo <= k <= hi <= toks.len(),
            whole == out@ + render(toks@, k as int, hi as int, as_ints(cut), rewrite, stack@),
        decreases hi - k,
    {
        let is_kept = match cut {
            Some((a, b)) => k < a || b < k,
            None => true,
        };
        if is_kept {
            let ghost before = out@;
            let ghost st = stack@;
            let ghost rest = render(toks@, k + 1, hi as int, as_ints(cut), rewrite, next_stack(toks@[k as int], st));
            match &toks[k] {
                Token::Open(n, attrs) => {
                    let s = open_tag(n.as_str(), &shown(n, attrs, rewrite));
                    push_str(out, s.as_str());
                    stack.push(n.clone());
                    assert(out@ =~= before + piece(toks@[k as int], rewrite, st));
                },
                Token::Close(n) => {
                    let s = close_tag(n.as_str());
                    push_str(out, s.as_str());
                    if stack.len() > 0 {
                        stack.pop();
                    }
                    assert(out@ =~= before + piece(toks@[k as int], rewrite, st));
                },
                Token::Text(t) => {
                    let s = if stack.len() > 0 {
                        text_in(stack[stack.len() - 1].as_str(), t.as_str())
                    } else {
                        proof {
                            reveal_strlit("");
                            assert(""@ =~= Seq::<char>::empty());
                        }
                        text_in("", t.as_str())
                    };
                    assert(s@ == text_markup(top(st), t@));
                    push_str(out, s.as_str());
                    assert(out@ =~= before + piece(toks@[k as int], rewrite, st));
                },
                Token::Comment(t) => {
                    let s = comment(t.as_str());
                    push_str(out, s.as_str());
                },
                Token::Other => {
                    assert(out@ =~= before + piece(toks@[k as int], rewrite, st));
                },
            }
            proof {
                assert(stack@ =~= next_stack(toks@[k as int], st));
                assert(out@ =~= before + piece(toks@[k as int], rewrite, st));
                assert(before + (piece(toks@[k as int], rewrite, st) + rest) =~= out@ + rest);
            }
        }
        k = k + 1;
    }
    assert(out@ =~= whole);
}

/// The element whose children are replaced by the extracted regions.
pub const CONTAINER: &'static str = "article";

/// The class of the title region.
pub const TITLE_CLASS: &'static str = "newLyricTitle";

/// The class of the label that the site appends to every title.
pub const TITLE_SUFFIX_CLASS: &'static str = "newLyricTitle_afterTxt";

/// The class of the metadata region.
pub const METADATA_CLASS: &'static str = "lyricData";

/// The class of the footer of tag and action controls in the metadata.
pub const FOOTER_CLASS: &'static str = "newLyricWorkFooter";

/// The class of the lyric body region.
pub const BODY_CLASS: &'static str = "lyricBody";

/// The class of the romanized reading inside the body.
pub const ROMAJI_CLASS: &'static str = "romaji";

/// The class of the marker that ends a page.
pub const PAGE_BREAK_CLASS: &'static str = "page-break";

/// A region of the page that extraction needs.
#[derive(PartialEq, Eq, Structural, Debug, Clone, Copy)]
pub enum Region {
    Title,
    Metadata,
    Body,
    Container,
}

impl Region {
    /// The region's name as reported.
    pub fn name(&self) -> (r: &'static str)
        ensures
            r@ == region_name(*self),
    {
        match self {
            Region::Title => "title",
            Region::Metadata => "metadata",
            Region::Body => "body",
            Region::Container => "container",
        }
    }
}

/// The name by which a region is reported.
pub open spec fn region_name(r: Region) -> Seq<char> {
    match r {
        Region::Title => "title"@,
        Region::Metadata => "metadata"@,
        Region::Body => "body"@,
        Region::Container => "container"@,
    }
}

/// Why a page could not be reduced.
#[derive(PartialEq, Eq, Structural, Debug, Clone, Copy)]
pub enum ExtractionError {
    MissingRegion(Region),
}

/// The markup of a region, without the first element inside it that carries
/// the class `part`, and rendered inside the element `parent`.
pub open spec fn trimmed(toks: Seq<Token>, reg: (int, int), part: Seq<char>, rewrite: bool, parent: String) -> Seq<char> {
    render(toks, reg.0, reg.1 + 1, span_in(toks, reg.0 + 1, reg.1, Wanted::Class(part)), rewrite, seq![parent])
}

/// The marker that ends a page.
pub open spec fn page_break_markup() -> Seq<char> {
    open_markup("div"@, seq![("class"@, PAGE_BREAK_CLASS@)]) + close_markup("div"@)
}

/// The pruned document of a page: its first container element, holding the
/// trimmed title, metadata (links made absolute) and body, in that order, and
/// the page-break marker where asked for.
pub open spec fn pruned(toks: Seq<Token>, page_break: bool) -> Result<Seq<char>, ExtractionError> {
    let n = toks.len() as int;
    match span_in(toks, 0, n, Wanted::Class(TITLE_CLASS@)) {
        None => Err(ExtractionError::MissingRegion(Region::Title)),
        Some(t) => match span_in(toks, 0, n, Wanted::Class(METADATA_CLASS@)) {
            None => Err(ExtractionError::MissingRegion(Region::Metadata)),
            Some(m) => match span_in(toks, 0, n, Wanted::Class(BODY_CLASS@)) {
                None => Err(ExtractionError::MissingRegion(Region::Body)),
                Some(b) => match first_in(toks, 0, n, Wanted::Named(CONTAINER@)) {
                    None => Err(ExtractionError::MissingRegion(Region::Container)),
                    Some(c) => match toks[c] {
                        Token::Open(name, attrs) => Ok(
                            open_markup(name@, attr_pairs(attrs@))
                            + trimmed(toks, t, TITLE_SUFFIX_CLASS@, false, name)
                            + trimmed(toks, m, FOOTER_CLASS@, true, name)
                            + trimmed(toks, b, ROMAJI_CLASS@, false, name)
                            + (if page_break { page_break_markup() } else { Seq::empty() })
                            + close_markup(name@)
                        ),
                        _ => Err(ExtractionError::MissingRegion(Region::Container)),
                    },
                },
            },
        },
    }
}

/// A result with the markup as plain characters.
pub open spec fn result_view(r: Result<String, ExtractionError>) -> Result<Seq<char>, ExtractionError> {
    match r {
        Ok(s) => Ok(s@),
        Err(e) => Err(e),
    }
}

/// The first element carrying the class, as the positions that open and close it.
fn class_span(toks: &Vec<Token>, lo: usize, hi: usize, class: &str) -> (r: Option<(usize, usize)>)
    requires
        hi <= toks.len(),
    ensures
        as_ints(r) == span_in(toks@, lo as int, hi as int, Wanted::Class(class@)),
        r matches Some((i, j)) ==> lo <= i < j < toks.len(),
{
    find_span(toks, lo, hi, &Target::Class(class.to_owned()))
}

/// Appends the region `reg` without its first element of class `part`.
fn trim_into(out: &mut Vec<char>, toks: &Vec<Token>, reg: (usize, usize), part: &str, rewrite: bool, parent: &String)
    requires
        reg.0 < reg.1 < toks.len(),
    ensures
        final(out)@ == old(out)@ + trimmed(toks@, (reg.0 as int, reg.1 as int), part@, rewrite, *parent),
{
    let cut = class_span(toks, reg.0 + 1, reg.1, part);
    render_into(out, toks, reg.0, reg.1 + 1, cut, rewrite, parent);
}

/// Reduces the events of a page to its pruned document.
pub fn extract_events(toks: &Vec<Token>, emit_page_break: bool) -> (r: Result<String, ExtractionError>)
    ensures
        result_view(r) == pruned(toks@, emit_page_break),
{
    let n = toks.len();
    let t = match class_span(toks, 0, n, TITLE_CLASS) {
        Some(t) => t,
        None => return Err(ExtractionError::MissingRegion(Region::Title)),
    };
    let m = match class_span(toks, 0, n, METADATA_CLASS) {
        Some(m) => m,
        None => return Err(ExtractionError::MissingRegion(Region::Metadata)),
    };
    let b = match class_span(toks, 0, n, BODY_CLASS) {
        Some(b) => b,
        None => return Err(ExtractionError::MissingRegion(Region::Body)),
    };
    let c = match find_first(toks, 0, n, &Target::Named(CONTAINER.to_owned())) {
        Some(c) => c,
        None => return Err(ExtractionError::MissingRegion(Region::Container)),
    };
    match &toks[c] {
        Token::Open(name, attrs) => {
            let mut out: Vec<char> = Vec::new();
            push_str(&mut out, open_tag(name.as_str(), attrs).as_str());
            trim_into(&mut out, toks, t, TITLE_SUFFIX_CLASS, false, name);
            trim_into(&mut out, toks, m, FOOTER_CLASS, true, name);
            trim_into(&mut out, toks, b, ROMAJI_CLASS, false, name);
            if emit_page_break {
                let marker = vec![Attr { name: "class".to_owned(), value: PAGE_BREAK_CLASS.to_owned() }];
                assert(attr_pairs(marker@) =~= seq![("class"@, PAGE_BREAK_CLASS@)]);
                push_str(&mut out, open_tag("div", &marker).as_str());
                push_str(&mut out, close_tag("div").as_str());
            }
            push_str(&mut out, close_tag(name.as_str()).as_str());
            proof {
                let ghost brk = if emit_page_break { page_break_markup() } else { Seq::<char>::empty() };
                assert(out@ =~= open_markup(name@, attr_pairs(attrs@))
                    + trimmed(toks@, (t.0 as int, t.1 as int), TITLE_SUFFIX_CLASS@, false, *name)
                    + trimmed(toks@, (m.0 as int, m.1 as int), FOOTER_CLASS@, true, *name)
                    + trimmed(toks@, (b.0 as int, b.1 as int), ROMAJI_CLASS@, false, *name)
                    + brk
                    + close_markup(name@));
            }
            Ok(string_of(&out))
        },
        _ => Err(ExtractionError::MissingRegion(Region::Container)),
    }
}

/// Parses a page and reduces it to its pruned document, rendered as markup.
pub fn extract(page: &str, emit_page_break: bool) -> (r: Result<String, ExtractionError>)
    ensures
        result_view(r) == pruned(page_events(page@), emit_page_break),
{
    let toks = parse_events(page);
    extract_events(&toks, emit_page_break)
}

} // verus!
