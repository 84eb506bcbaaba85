//! Song queries: their split into title and artist, and the file that a
//! song's lyric is kept in.

use crate::text::{chars_of, push_str, string_of};
use vstd::prelude::*;

verus! {

/// The directory the lyric files are kept in, with its trailing slash.
pub const LYRICS_DIR: &'static str = "lyrics/";

/// The extension of a lyric file.
pub const LYRIC_EXT: &'static str = ".html";

/// `" / "` in `s` at position `i`.
pub open spec fn sep_at(s: Seq<char>, i: int) -> bool {
    0 <= i && i + 3 <= s.len() && s[i] == ' ' && s[i + 1] == '/' && s[i + 2] == ' '
}

/// A character as it stands in a file name: path separators and control
/// characters become `_`.
pub open spec fn safe_char(c: char) -> char {
    if c == '/' || c == '\\' || (c as u32) < 0x20 || (c as u32) == 0x7f {
        '_'
    } else {
        c
    }
}

/// `s` with each `" / "`, taken from left to right, replaced by `" - "`, and
/// every other character made safe for a file name.
pub open spec fn dashed(s: Seq<char>) -> Seq<char>
    decreases s.len(),
{
    if s.len() == 0 {
        s
    } else if sep_at(s, 0) {
        seq![' ', '-', ' '] + dashed(s.subrange(3, s.len() as int))
    } else {
        seq![safe_char(s[0])] + dashed(s.drop_first())
    }
}

/// The file that the lyric of a song is kept in.
pub open spec fn filename_of(song: Seq<char>) -> Seq<char> {
    LYRICS_DIR@ + dashed(song) + LYRIC_EXT@
}

/// The position of the first `/` in `s`.
pub open spec fn first_slash(s: Seq<char>, i: int) -> bool {
    0 <= i < s.len() && s[i] == '/' && forall|m: int| 0 <= m < i ==> s[m] != '/'
}

/// The title and artist of a query: what stands before and after its first
/// `/`, or the whole query and no artist.
pub open spec fn split_song(s: Seq<char>) -> (Seq<char>, Seq<char>) {
    if exists|i: int| first_slash(s, i) {
        let i = choose|i: int| first_slash(s, i);
        (s.subrange(0, i), s.subrange(i + 1, s.len() as int))
    } else {
        (s, Seq::empty())
    }
}

/// A character as it stands in a file name.
fn file_char(c: char) -> (r: char)
    ensures
        r == safe_char(c),
{
    if c == '/' || c == '\\' || (c as u32) < 0x20 || (c as u32) == 0x7f {
        '_'
    } else {
        c
    }
}

/// The file that the lyric of a song is kept in.
pub fn lyric_filename(song: &str) -> (r: String)
    ensures
        r@ == filename_of(song@),
{
    let cs = chars_of(song);
    let mut out = chars_of(LYRICS_DIR);
    let ghost whole = out@ + dashed(cs@);
    assert(cs@.subrange(0, cs@.len() as int) =~= cs@);
    let mut i: usize = 0;
    while i < cs.len()
        invariant
            i <= cs.len(),
            whole == out@ + dashed(cs@.subrange(i as int, cs@.len() as int)),
        decreases cs.len() - i,
    {
        let ghost rest = cs@.subrange(i as int, cs@.len() as int);
        let ghost before = out@;
        if cs.len() - i >= 3 && cs[i] == ' ' && cs[i + 1] == '/' && cs[i + 2] == ' ' {
            out.push(' ');
            out.push('-');
            out.push(' ');
            proof {
                assert(sep_at(rest, 0));
                assert(rest.subrange(3, rest.len() as int) =~= cs@.subrange(i + 3, cs@.len() as int));
                assert(out@ =~= before + seq![' ', '-', ' ']);
            }
            i = i + 3;
        } else {
            out.push(file_char(cs[i]));
            proof {
                assert(!sep_at(rest, 0));
                assert(rest.drop_first() =~= cs@.subrange(i + 1, cs@.len() as int));
                assert(out@ =~= before + seq![safe_char(rest[0])]);
            }
            i = i + 1;
        }
    }
    assert(cs@.subrange(i as int, cs@.len() as int) =~= Seq::<char>::empty());
    push_str(&mut out, LYRIC_EXT);
    string_of(&out)
}

/// The title and artist of a query.
pub fn split_query(song: &str) -> (r: (String, String))
    ensures
        (r.0@, r.1@) == split_song(song@),
{
    let cs = chars_of(song);
    let mut i: usize = 0;
    while i < cs.len()
        invariant
            i <= cs.len(),
            cs@ == song@,
            forall|m: int| 0 <= m < i ==> cs@[m] != '/',
        decreases cs.len() - i,
    {
        if cs[i] == '/' {
            let mut title: Vec<char> = Vec::new();
            let mut artist: Vec<char> = Vec::new();
            let mut k: usize = 0;
            while k < cs.len()
                invariant
                    i < cs.len(),
                    k <= cs.len(),
                    title@ == cs@.subrange(0, if k < i { k as int } else { i as int }),
                    artist@ == cs@.subrange(i + 1, if k > i + 1 { k as int } else { i + 1 }),
                decreases cs.len() - k,
            {
                if k < i {
                    title.push(cs[k]);
                } else if k > i {
                    artist.push(cs[k]);
                }
                k = k + 1;
                proof {
                    assert(title@ =~= cs@.subrange(0, if k < i { k as int } else { i as int }));
                    assert(artist@ =~= cs@.subrange(i + 1, if k > i + 1 { k as int } else { i + 1 }));
                }
            }
            proof {
                assert(first_slash(song@, i as int));
                let c = choose|c: int| first_slash(song@, c);
                if c < i {
                    assert(cs@[c] != '/');
                } else if i < c {
                    assert(song@[i as int] != '/');
                }
            }
            return (string_of(&title), string_of(&artist));
        }
        i = i + 1;
    }
    proof {
        assert forall|c: int| !first_slash(song@, c) by {
            if 0 <= c < song@.len() {
                assert(cs@[c] != '/');
            }
        }
    }
    (song.to_owned(), String::new())
}

} // verus!
