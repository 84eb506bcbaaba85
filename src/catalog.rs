//! The catalog: for each song, in input order, the decisions that lead from its
//! query to an outcome, and the manifest of files that the outcomes list.
//!
//! The work between decisions (checking the disk, a search request, a page
//! request, writing a file) is done by the caller, which hands back what it
//! found as an `Event` and is told the next `Action`.

use crate::extract::{extract, pruned, result_view, ExtractionError};
use crate::markup::page_events;
use crate::search::{first_result, resolve, ParseError};
use crate::song::{filename_of, lyric_filename, split_query, split_song};
use vstd::prelude::*;

verus! {

/// How the work on one song ended.
#[derive(Debug)]
pub enum Outcome {
    Persisted(String),
    Skipped(String),
    NotFound,
    Unresolved(ParseError),
    Failed(ExtractionError),
}

/// An outcome with its file name as plain characters.
pub enum OutcomeView {
    Persisted(Seq<char>),
    Skipped(Seq<char>),
    NotFound,
    Unresolved(ParseError),
    Failed(ExtractionError),
}

impl View for Outcome {
    type V = OutcomeView;

    open spec fn view(&self) -> OutcomeView {
        match self {
            Outcome::Persisted(f) => OutcomeView::Persisted(f@),
            Outcome::Skipped(f) => OutcomeView::Skipped(f@),
            Outcome::NotFound => OutcomeView::NotFound,
            Outcome::Unresolved(e) => OutcomeView::Unresolved(*e),
            Outcome::Failed(e) => OutcomeView::Failed(*e),
        }
    }
}

/// What the caller found while doing the last action.
#[derive(Debug)]
pub enum Event {
    /// Whether the song's file is already on disk.
    Existing(bool),
    /// The listing that the search returned.
    SearchListing(String),
    /// The lyric page that was fetched.
    LyricPage(String),
    /// The song's file was written.
    Written,
}

/// An event with its strings as plain characters.
pub enum EventView {
    Existing(bool),
    SearchListing(Seq<char>),
    LyricPage(Seq<char>),
    Written,
}

impl View for Event {
    type V = EventView;

    open spec fn view(&self) -> EventView {
        match self {
            Event::Existing(b) => EventView::Existing(*b),
            Event::SearchListing(s) => EventView::SearchListing(s@),
            Event::LyricPage(s) => EventView::LyricPage(s@),
            Event::Written => EventView::Written,
        }
    }
}

/// What the caller is to do next for the song.
#[derive(Debug)]
pub enum Action {
    /// Find out whether this file exists.
    CheckExisting(String),
    /// Search for the song with these parameters.
    Search { title: String, artist: String },
    /// Fetch the page at this address.
    Fetch(String),
    /// Write the markup to the file.
    Write { filename: String, markup: String },
    /// The song is done.
    Done(Outcome),
}

/// An action with its strings as plain characters.
pub enum ActionView {
    CheckExisting(Seq<char>),
    Search(Seq<char>, Seq<char>),
    Fetch(Seq<char>),
    Write(Seq<char>, Seq<char>),
    Done(OutcomeView),
}

impl View for Action {
    type V = ActionView;

    open spec fn view(&self) -> ActionView {
        match self {
            Action::CheckExisting(f) => ActionView::CheckExisting(f@),
            Action::Search { title, artist } => ActionView::Search(title@, artist@),
            Action::Fetch(u) => ActionView::Fetch(u@),
            Action::Write { filename, markup } => ActionView::Write(filename@, markup@),
            Action::Done(o) => ActionView::Done(o@),
        }
    }
}

/// The action that the work on a song begins with.
pub open spec fn first_action(song: Seq<char>) -> ActionView {
    ActionView::CheckExisting(filename_of(song))
}

/// The action that follows an event in the work on a song.
pub open spec fn next_action(song: Seq<char>, e: EventView, emit_page_break: bool) -> ActionView {
    match e {
        EventView::Existing(true) => ActionView::Done(OutcomeView::Skipped(filename_of(song))),
        EventView::Existing(false) => ActionView::Search(split_song(song).0, split_song(song).1),
        EventView::SearchListing(h) => match first_result(page_events(h)) {
            Ok(None) => ActionView::Done(OutcomeView::NotFound),
            Ok(Some(u)) => ActionView::Fetch(u),
            Err(e) => ActionView::Done(OutcomeView::Unresolved(e)),
        },
        EventView::LyricPage(h) => match pruned(page_events(h), emit_page_break) {
            Ok(m) => ActionView::Write(filename_of(song), m),
            Err(e) => ActionView::Done(OutcomeView::Failed(e)),
        },
        EventView::Written => ActionView::Done(OutcomeView::Persisted(filename_of(song))),
    }
}

/// The file an outcome lists in the manifest, if any.
pub open spec fn listed(o: OutcomeView) -> Seq<Seq<char>> {
    match o {
        OutcomeView::Persisted(f) => seq![f],
        OutcomeView::Skipped(f) => seq![f],
        _ => Seq::empty(),
    }
}

/// The files of the persisted and skipped songs, in the order of the outcomes.
pub open spec fn manifest_of(outs: Seq<OutcomeView>) -> Seq<Seq<char>>
    decreases outs.len(),
{
    if outs.len() == 0 {
        Seq::empty()
    } else {
        manifest_of(outs.drop_last()) + listed(outs.last())
    }
}

/// Outcomes as plain values.
pub open spec fn outcome_views(outs: Seq<Outcome>) -> Seq<OutcomeView> {
    outs.map_values(|o: Outcome| o@)
}

/// Strings as plain characters.
pub open spec fn string_views(v: Seq<String>) -> Seq<Seq<char>> {
    v.map_values(|s: String| s@)
}

/// The action that the work on a song begins with.
pub fn start(song: &str) -> (r: Action)
    ensures
        r@ == first_action(song@),
{
    Action::CheckExisting(lyric_filename(song))
}

/// The action that follows an event in the work on a song.
pub fn step(song: &str, event: &Event, emit_page_break: bool) -> (r: Action)
    ensures
        r@ == next_action(song@, event@, emit_page_break),
{
    match event {
        Event::Existing(true) => Action::Done(Outcome::Skipped(lyric_filename(song))),
        Event::Existing(false) => {
            let (title, artist) = split_query(song);
            Action::Search { title, artist }
        },
        Event::SearchListing(h) => match resolve(h.as_str()) {
            Ok(None) => Action::Done(Outcome::NotFound),
            Ok(Some(u)) => Action::Fetch(u),
            Err(e) => Action::Done(Outcome::Unresolved(e)),
        },
        Event::LyricPage(h) => {
            let r = extract(h.as_str(), emit_page_break);
            assert(result_view(r) == pruned(page_events(h@), emit_page_break));
            match r {
                Ok(markup) => Action::Write { filename: lyric_filename(song), markup },
                Err(e) => Action::Done(Outcome::Failed(e)),
            }
        },
        Event::Written => Action::Done(Outcome::Persisted(lyric_filename(song))),
    }
}

/// The manifest: the files of the persisted and skipped songs, in order.
pub fn manifest(outcomes: &Vec<Outcome>) -> (r: Vec<String>)
    ensures
        string_views(r@) == manifest_of(outcome_views(outcomes@)),
{
    let mut r: Vec<String> = Vec::new();
    let mut k: usize = 0;
    while k < outcomes.len()
        invariant
            k <= outcomes.len(),
            string_views(r@) == manifest_of(outcome_views(outcomes@).subrange(0, k as int)),
        decreases outcomes.len() - k,
    {
        let ghost before = r@;
        let ghost vs = outcome_views(outcomes@);
        proof {
            assert(vs.subrange(0, k + 1).drop_last() =~= vs.subrange(0, k as int));
            assert(vs.subrange(0, k + 1).last() == outcomes@[k as int]@);
        }
        match &outcomes[k] {
            Outcome::Persisted(f) => r.push(f.clone()),
            Outcome::Skipped(f) => r.push(f.clone()),
            _ => {},
        }
        proof {
            assert(string_views(r@) =~= string_views(before) + listed(outcomes@[k as int]@));
        }
        k = k + 1;
    }
    assert(outcome_views(outcomes@).subrange(0, outcomes.len() as int) =~= outcome_views(outcomes@));
    r
}

/// The manifest of two runs of outcomes, one after the other, is the manifest
/// of the first followed by that of the second: files keep the input order.
pub proof fn lemma_manifest_keeps_order(a: Seq<OutcomeView>, b: Seq<OutcomeView>)
    ensures
        manifest_of(a + b) == manifest_of(a) + manifest_of(b),
    decreases b.len(),
{
    if b.len() == 0 {
        assert(a + b =~= a);
        assert(manifest_of(b) =~= Seq::<Seq<char>>::empty());
        assert(manifest_of(a) + manifest_of(b) =~= manifest_of(a));
    } else {
        assert((a + b).drop_last() =~= a + b.drop_last());
        assert((a + b).last() == b.last());
        lemma_manifest_keeps_order(a, b.drop_last());
        assert(manifest_of(a) + manifest_of(b.drop_last()) + listed(b.last())
            =~= manifest_of(a) + (manifest_of(b.drop_last()) + listed(b.last())));
    }
}

/// A song that was not found is left out of the manifest, and the songs
/// around it are listed as they would be without it.
pub proof fn lemma_not_found_unlisted(a: Seq<OutcomeView>, b: Seq<OutcomeView>)
    ensures
        manifest_of(a + seq![OutcomeView::NotFound] + b) == manifest_of(a) + manifest_of(b),
{
    lemma_manifest_keeps_order(a + seq![OutcomeView::NotFound], b);
    lemma_manifest_keeps_order(a, seq![OutcomeView::NotFound]);
    assert(seq![OutcomeView::NotFound].drop_last() =~= Seq::<OutcomeView>::empty());
    assert(seq![OutcomeView::NotFound].last() == OutcomeView::NotFound);
    assert(manifest_of(Seq::<OutcomeView>::empty()) =~= Seq::<Seq<char>>::empty());
    assert(manifest_of(seq![OutcomeView::NotFound]) =~= Seq::<Seq<char>>::empty());
    assert(manifest_of(a) + Seq::<Seq<char>>::empty() =~= manifest_of(a));
}

/// A song whose file is already on disk is skipped at once: no search, no
/// fetch and no write follow, and its file is listed as it stands.
pub proof fn lemma_existing_file_skipped(song: Seq<char>, emit_page_break: bool)
    ensures
        next_action(song, EventView::Existing(true), emit_page_break)
            == ActionView::Done(OutcomeView::Skipped(filename_of(song))),
        listed(OutcomeView::Skipped(filename_of(song))) == seq![filename_of(song)],
{
}

/// A second run over songs whose files are all on disk skips every one of
/// them and lists their files in input order.
pub proof fn lemma_rerun_lists_every_file(songs: Seq<Seq<char>>)
    ensures
        manifest_of(songs.map_values(|s: Seq<char>| OutcomeView::Skipped(filename_of(s))))
            == songs.map_values(|s: Seq<char>| filename_of(s)),
    decreases songs.len(),
{
    let outs = songs.map_values(|s: Seq<char>| OutcomeView::Skipped(filename_of(s)));
    if songs.len() == 0 {
        assert(songs.map_values(|s: Seq<char>| filename_of(s)) =~= Seq::<Seq<char>>::empty());
    } else {
        lemma_rerun_lists_every_file(songs.drop_last());
        assert(outs.drop_last() =~= songs.drop_last().map_values(|s: Seq<char>| OutcomeView::Skipped(filename_of(s))));
        assert(songs.map_values(|s: Seq<char>| filename_of(s)) =~= songs.drop_last().map_values(
            |s: Seq<char>| filename_of(s)).push(filename_of(songs.last())));
    }
}

} // verus!
