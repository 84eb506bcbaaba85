//! Locating elements in an event sequence: where an element ends, which
//! elements carry a class, and the first element of a kind within a range.

use crate::markup::{Attr, Token};
use crate::text::chars_of;
use vstd::prelude::*;

verus! {

/// How an event changes the number of open elements.
pub open spec fn step(t: Token) -> int {
    match t {
        Token::Open(..) => 1,
        Token::Close(..) => -1,
        _ => 0,
    }
}

/// The number of elements opened and not yet closed by `s`.
pub open spec fn depth(s: Seq<Token>) -> int
    decreases s.len(),
{
    if s.len() == 0 {
        0
    } else {
        depth(s.drop_last()) + step(s.last())
    }
}

/// The depth reached from position `i` up to and including position `k`.
pub open spec fn depth_through(toks: Seq<Token>, i: int, k: int) -> int {
    depth(toks.subrange(i, k + 1))
}

/// The element opened at `i` is closed at `j`.
pub open spec fn closes(toks: Seq<Token>, i: int, j: int) -> bool {
    &&& 0 <= i < j < toks.len()
    &&& toks[i] is Open
    &&& depth_through(toks, i, j) == 0
    &&& forall|k: int| i <= k < j ==> #[trigger] depth_through(toks, i, k) > 0
}

/// Class lists are separated by ASCII whitespace.
pub open spec fn is_space(c: char) -> bool {
    c == ' ' || c == '\t' || c == '\n' || c == '\x0C' || c == '\r'
}

/// `w` stands as a whole word at position `i` of `v`.
pub open spec fn word_at(v: Seq<char>, w: Seq<char>, i: int) -> bool {
    &&& 0 <= i
    &&& i + w.len() <= v.len()
    &&& v.subrange(i, i + w.len()) == w
    &&& (i == 0 || is_space(v[i - 1]))
    &&& (i + w.len() == v.len() || is_space(v[i + w.len()]))
}

/// The whitespace-separated list `v` holds the word `w`.
pub open spec fn has_word(v: Seq<char>, w: Seq<char>) -> bool {
    w.len() > 0 && exists|i: int| word_at(v, w, i)
}

/// `k` is the first attribute named `name`.
pub open spec fn first_named(attrs: Seq<Attr>, name: Seq<char>, k: int) -> bool {
    &&& 0 <= k < attrs.len()
    &&& attrs[k].name@ == name
    &&& forall|m: int| 0 <= m < k ==> (#[trigger] attrs[m]).name@ != name
}

/// The value of the first attribute named `name`, if any.
pub open spec fn attr_value(attrs: Seq<Attr>, name: Seq<char>) -> Option<Seq<char>> {
    if exists|k: int| first_named(attrs, name, k) {
        Some(attrs[choose|k: int| first_named(attrs, name, k)].value@)
    } else {
        None
    }
}

/// The event opens an element whose class list holds `c`.
pub open spec fn has_class(t: Token, c: Seq<char>) -> bool {
    match t {
        Token::Open(_, attrs) => match attr_value(attrs@, "class"@) {
            Some(v) => has_word(v, c),
            None => false,
        },
        _ => false,
    }
}

/// The event opens an element named `name`.
pub open spec fn is_element(t: Token, name: Seq<char>) -> bool {
    match t {
        Token::Open(n, _) => n@ == name,
        _ => false,
    }
}

/// What an element is looked for by: a class it carries, or its name.
pub enum Target {
    Class(String),
    Named(String),
}

/// A target as plain characters.
pub enum Wanted {
    Class(Seq<char>),
    Named(Seq<char>),
}

impl View for Target {
    type V = Wanted;

    open spec fn view(&self) -> Wanted {
        match self {
            Target::Class(c) => Wanted::Class(c@),
            Target::Named(n) => Wanted::Named(n@),
        }
    }
}

/// The event opens an element that the target asks for.
pub open spec fn hits(t: Token, target: Wanted) -> bool {
    match target {
        Wanted::Class(c) => has_class(t, c),
        Wanted::Named(n) => is_element(t, n),
    }
}

/// `k` is the first position of `[lo, hi)` whose event hits the target.
pub open spec fn first_hit(toks: Seq<Token>, lo: int, hi: int, target: Wanted, k: int) -> bool {
    &&& lo <= k < hi
    &&& hits(toks[k], target)
    &&& forall|m: int| lo <= m < k ==> !#[trigger] hits(toks[m], target)
}

/// The first element of `[lo, hi)` that hits the target, as the positions
/// that open and close it; none if there is no such element or it is never
/// closed.
pub open spec fn span_in(toks: Seq<Token>, lo: int, hi: int, target: Wanted) -> Option<(int, int)> {
    if exists|i: int, j: int| first_hit(toks, lo, hi, target, i) && closes(toks, i, j) {
        Some(choose|i: int, j: int| first_hit(toks, lo, hi, target, i) && closes(toks, i, j))
    } else {
        None
    }
}

/// The position of the first event of `[lo, hi)` that hits the target.
pub open spec fn first_in(toks: Seq<Token>, lo: int, hi: int, target: Wanted) -> Option<int> {
    if exists|i: int| first_hit(toks, lo, hi, target, i) {
        Some(choose|i: int| first_hit(toks, lo, hi, target, i))
    } else {
        None
    }
}

/// Positions as mathematical integers.
pub open spec fn as_ints(r: Option<(usize, usize)>) -> Option<(int, int)> {
    match r {
        Some((i, j)) => Some((i as int, j as int)),
        None => None,
    }
}

proof fn lemma_first_hit_unique(toks: Seq<Token>, lo: int, hi: int, target: Wanted, a: int, b: int)
    requires
        first_hit(toks, lo, hi, target, a),
        first_hit(toks, lo, hi, target, b),
    ensures
        a == b,
{
    if a < b {
        assert(!hits(toks[a], target));
    } else if b < a {
        assert(!hits(toks[b], target));
    }
}

proof fn lemma_closes_unique(toks: Seq<Token>, i: int, a: int, b: int)
    requires
        closes(toks, i, a),
        closes(toks, i, b),
    ensures
        a == b,
{
    if a < b {
        assert(depth_through(toks, i, a) > 0);
    } else if b < a {
        assert(depth_through(toks, i, b) > 0);
    }
}

proof fn lemma_first_named_unique(attrs: Seq<Attr>, name: Seq<char>, a: int, b: int)
    requires
        first_named(attrs, name, a),
        first_named(attrs, name, b),
    ensures
        a == b,
{
    if a < b {
        assert(attrs[a].name@ != name);
    } else if b < a {
        assert(attrs[b].name@ != name);
    }
}

/// The position that closes the element opened at `i`, if it is closed.
pub fn match_close(toks: &Vec<Token>, i: usize) -> (r: Option<usize>)
    requires
        i < toks.len(),
        toks@[i as int] is Open,
    ensures
        match r {
            Some(j) => closes(toks@, i as int, j as int),
            None => forall|j: int| !closes(toks@, i as int, j),
        },
{
    proof {
        assert(toks@.subrange(i as int, i + 1).drop_last() =~= Seq::<Token>::empty());
        assert(depth(Seq::<Token>::empty()) == 0);
        assert(depth_through(toks@, i as int, i as int) == 1);
    }
    let mut d: usize = 1;
    let mut k: usize = i + 1;
    while k < toks.len()
        invariant
            i < k <= toks.len(),
            toks@[i as int] is Open,
            1 <= d <= k - i,
            d as int == depth_through(toks@, i as int, k - 1),
            forall|m: int| i <= m < k ==> #[trigger] depth_through(toks@, i as int, m) > 0,
        decreases toks.len() - k,
    {
        proof {
            assert(toks@.subrange(i as int, k + 1).drop_last() =~= toks@.subrange(i as int, k as int));
            assert(depth_through(toks@, i as int, k as int) == depth_through(toks@, i as int, k - 1)
                + step(toks@[k as int]));
        }
        match &toks[k] {
            Token::Open(..) => {
                d = d + 1;
            },
            Token::Close(..) => {
                d = d - 1;
                if d == 0 {
                    return Some(k);
                }
            },
            _ => {},
        }
        k = k + 1;
    }
    proof {
        assert forall|j: int| !closes(toks@, i as int, j) by {
            if closes(toks@, i as int, j) {
                assert(depth_through(toks@, i as int, j) > 0);
            }
        }
    }
    None
}

/// `w` occurs in `v` at position `i`.
fn matches_at(v: &Vec<char>, w: &Vec<char>, i: usize) -> (r: bool)
    requires
        i + w.len() <= v.len(),
    ensures
        r == (v@.subrange(i as int, i + w.len()) == w@),
{
    let mut j: usize = 0;
    while j < w.len()
        invariant
            i + w.len() <= v.len(),
            j <= w.len(),
            forall|m: int| 0 <= m < j ==> v@[i + m] == w@[m],
        decreases w.len() - j,
    {
        if v[i + j] != w[j] {
            assert(v@.subrange(i as int, i + w.len())[j as int] != w@[j as int]);
            return false;
        }
        j = j + 1;
    }
    assert(v@.subrange(i as int, i + w.len()) =~= w@);
    true
}

fn is_space_char(c: char) -> (r: bool)
    ensures
        r == is_space(c),
{
    c == ' ' || c == '\t' || c == '\n' || c == '\x0C' || c == '\r'
}

/// The whitespace-separated list `v` holds the word `w`.
pub fn contains_word(v: &Vec<char>, w: &Vec<char>) -> (r: bool)
    ensures
        r == has_word(v@, w@),
{
    if w.len() == 0 {
        return false;
    }
    if w.len() > v.len() {
        return false;
    }
    let last: usize = v.len() - w.len();
    let mut i: usize = 0;
    while i <= last
        invariant
            0 < w.len() <= v.len(),
            last == v.len() - w.len(),
            forall|m: int| 0 <= m < i ==> !word_at(v@, w@, m),
        decreases last + 1 - i,
    {
        if matches_at(v, w, i) {
            let before = i == 0 || is_space_char(v[i - 1]);
            let after = i == last || is_space_char(v[i + w.len()]);
            if before && after {
                assert(word_at(v@, w@, i as int));
                return true;
            }
        }
        i = i + 1;
    }
    proof {
        assert forall|m: int| !word_at(v@, w@, m) by {
            if 0 <= m < i {
            }
        }
    }
    false
}

/// The position of the first attribute named `name`.
pub(crate) fn find_attr(attrs: &Vec<Attr>, name: &String) -> (r: Option<usize>)
    ensures
        match r {
            Some(k) => first_named(attrs@, name@, k as int),
            None => forall|k: int| !first_named(attrs@, name@, k),
        },
        match r {
            Some(k) => attr_value(attrs@, name@) == Some(attrs@[k as int].value@),
            None => attr_value(attrs@, name@) is None,
        },
{
    let mut k: usize = 0;
    while k < attrs.len()
        invariant
            k <= attrs.len(),
            forall|m: int| 0 <= m < k ==> (#[trigger] attrs@[m]).name@ != name@,
        decreases attrs.len() - k,
    {
        if attrs[k].name == *name {
            proof {
                assert(first_named(attrs@, name@, k as int));
                let c = choose|c: int| first_named(attrs@, name@, c);
                lemma_first_named_unique(attrs@, name@, k as int, c);
            }
            return Some(k);
        }
        k = k + 1;
    }
    None
}

/// The event hits the target.
pub fn is_hit(t: &Token, target: &Target) -> (r: bool)
    ensures
        r == hits(*t, target@),
{
    match t {
        Token::Open(n, attrs) => match target {
            Target::Named(want) => *n == *want,
            Target::Class(c) => {
                let class_name = "class".to_owned();
                match find_attr(attrs, &class_name) {
                    Some(k) => contains_word(&chars_of(attrs[k].value.as_str()), &chars_of(c.as_str())),
                    None => false,
                }
            },
        },
        _ => false,
    }
}

/// The first position of `[lo, hi)` whose event hits the target.
pub fn find_first(toks: &Vec<Token>, lo: usize, hi: usize, target: &Target) -> (r: Option<usize>)
    requires
        hi <= toks.len(),
    ensures
        match r {
            Some(k) => first_hit(toks@, lo as int, hi as int, target@, k as int),
            None => forall|k: int| !first_hit(toks@, lo as int, hi as int, target@, k),
        },
        r matches Some(k) ==> first_in(toks@, lo as int, hi as int, target@) == Some(k as int),
        r is None ==> first_in(toks@, lo as int, hi as int, target@) is None,
{
    let mut k: usize = lo;
    while k < hi
        invariant
            lo <= k,
            hi <= toks.len(),
            forall|m: int| lo <= m < k ==> !#[trigger] hits(toks@[m], target@),
        decreases hi - k,
    {
        if is_hit(&toks[k], target) {
            proof {
                assert(first_hit(toks@, lo as int, hi as int, target@, k as int));
                let c = choose|c: int| first_hit(toks@, lo as int, hi as int, target@, c);
                lemma_first_hit_unique(toks@, lo as int, hi as int, target@, k as int, c);
            }
            return Some(k);
        }
        k = k + 1;
    }
    proof {
        assert forall|m: int| !first_hit(toks@, lo as int, hi as int, target@, m) by {
            if first_hit(toks@, lo as int, hi as int, target@, m) {
                assert(!hits(toks@[m], target@));
            }
        }
    }
    None
}

/// The first element of `[lo, hi)` that hits the target, as the positions
/// that open and close it.
pub fn find_span(toks: &Vec<Token>, lo: usize, hi: usize, target: &Target) -> (r: Option<(usize, usize)>)
    requires
        hi <= toks.len(),
    ensures
        as_ints(r) == span_in(toks@, lo as int, hi as int, target@),
        r matches Some((i, j)) ==> lo <= i < j < toks.len(),
{
    match find_first(toks, lo, hi, target) {
        None => {
            proof {
                assert(!exists|i: int, j: int|
                    first_hit(toks@, lo as int, hi as int, target@, i) && closes(toks@, i, j));
            }
            None
        },
        Some(i) => {
            assert(toks@[i as int] is Open);
            match match_close(toks, i) {
                None => {
                    proof {
                        assert forall|a: int, b: int|
                            !(first_hit(toks@, lo as int, hi as int, target@, a) && closes(toks@, a, b)) by {
                            if first_hit(toks@, lo as int, hi as int, target@, a) {
                                lemma_first_hit_unique(toks@, lo as int, hi as int, target@, a, i as int);
                            }
                        }
                    }
                    None
                },
                Some(j) => {
                    proof {
                        assert(first_hit(toks@, lo as int, hi as int, target@, i as int) && closes(toks@, i as int, j as int));
                        let (a, b) = choose|a: int, b: int|
                            first_hit(toks@, lo as int, hi as int, target@, a) && closes(toks@, a, b);
                        lemma_first_hit_unique(toks@, lo as int, hi as int, target@, a, i as int);
                        lemma_closes_unique(toks@, i as int, b, j as int);
                    }
                    Some((i, j))
                },
            }
        },
    }
}

} // verus!
