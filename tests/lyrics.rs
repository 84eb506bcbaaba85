use utaten_lyrics::catalog::{manifest, start, step, Action, Event, Outcome};
use utaten_lyrics::extract::{absolute_link, extract, ExtractionError, Region};
use utaten_lyrics::markup::{Attr, Token};
use utaten_lyrics::search::{first_result_link, resolve, ParseError};
use utaten_lyrics::song::{lyric_filename, split_query};

const PAGE: &str = "<html><head><title>t</title></head><body>\
<header><a href=\"/top\">top</a></header>\
<article class=\"main\"><p>old content</p>\
<div class=\"newLyricTitle\"><h2>Song A<span class=\"newLyricTitle_afterTxt\">の歌詞</span></h2></div>\
<div class=\"lyricData\"><div class=\"newLyricWork\"><a href=\"/artist/1\">Artist</a><a href=\"/tag/2\">Tag</a></div>\
<div class=\"newLyricWorkFooter\">Share this</div></div>\
<div class=\"lyricBody\"><div class=\"hiragana\">歌詞<br>二行</div><div class=\"romaji\">kashi</div></div>\
</article></body></html>";

const PAGE_WITHOUT_BODY: &str = "<html><body><article>\
<div class=\"newLyricTitle\"><h2>Song A<span class=\"newLyricTitle_afterTxt\">の歌詞</span></h2></div>\
<div class=\"lyricData\"><div class=\"newLyricWorkFooter\">x</div></div>\
</article></body></html>";

const LISTING: &str = "<html><body><div class=\"searchResult\">\
<p class=\"searchResult__title\"><a href=\"/lyric/123/\">Song A</a></p>\
<p class=\"searchResult__title\"><a href=\"/lyric/456/\">Song A (live)</a></p>\
</div></body></html>";

const EMPTY_LISTING: &str = "<html><body><div class=\"searchResult\"><p>0 results</p></div></body></html>";

#[test]
fn filename_of_plain_title() {
    assert_eq!(lyric_filename("Song A"), "lyrics/Song A.html");
}

#[test]
fn filename_of_title_and_artist() {
    assert_eq!(lyric_filename("Song A / Artist B"), "lyrics/Song A - Artist B.html");
}

#[test]
fn filename_replaces_every_separator() {
    assert_eq!(lyric_filename("A / B / C"), "lyrics/A - B - C.html");
    assert_eq!(lyric_filename(""), "lyrics/.html");
}

#[test]
fn filename_made_safe() {
    assert_eq!(lyric_filename("AC/DC"), "lyrics/AC_DC.html");
    assert_eq!(lyric_filename("a\\b\tc / d"), "lyrics/a_b_c - d.html");
    assert_eq!(lyric_filename("../x"), "lyrics/.._x.html");
}

#[test]
fn query_split_at_first_slash() {
    assert_eq!(split_query("Song B / Artist B"), ("Song B ".to_string(), " Artist B".to_string()));
    assert_eq!(split_query("Song A"), ("Song A".to_string(), String::new()));
    assert_eq!(split_query("a/b/c"), ("a".to_string(), "b/c".to_string()));
}

#[test]
fn extraction_keeps_three_trimmed_regions() {
    let out = extract(PAGE, true).unwrap();
    assert_eq!(
        out,
        "<article class=\"main\">\
<div class=\"newLyricTitle\"><h2>Song A</h2></div>\
<div class=\"lyricData\"><div class=\"newLyricWork\"><a href=\"https://utaten.com/artist/1\">Artist</a>\
<a href=\"https://utaten.com/tag/2\">Tag</a></div></div>\
<div class=\"lyricBody\"><div class=\"hiragana\">歌詞<br>二行</div></div>\
<div class=\"page-break\"></div></article>"
    );
    assert!(!out.contains("の歌詞"));
    assert!(!out.contains("Share this"));
    assert!(!out.contains("kashi"));
    assert!(!out.contains("old content"));
    assert!(!out.contains("\"/artist/1\""));
}

#[test]
fn extraction_without_page_break() {
    let out = extract(PAGE, false).unwrap();
    assert!(!out.contains("page-break"));
    assert!(out.ends_with("</div></div></article>"));
}

#[test]
fn extraction_escapes_text() {
    let page = PAGE.replace("Song A<span", "Tom &amp; Jerry &lt;3<span");
    let out = extract(&page, false).unwrap();
    assert!(out.contains("<h2>Tom &amp; Jerry &lt;3</h2>"));
}

#[test]
fn missing_body_region() {
    assert_eq!(extract(PAGE_WITHOUT_BODY, true), Err(ExtractionError::MissingRegion(Region::Body)));
    assert_eq!(Region::Body.name(), "body");
}

#[test]
fn missing_title_metadata_and_container() {
    assert_eq!(extract("<p>nothing</p>", true), Err(ExtractionError::MissingRegion(Region::Title)));
    let no_data = PAGE.replace("lyricData", "other");
    assert_eq!(extract(&no_data, true), Err(ExtractionError::MissingRegion(Region::Metadata)));
    let no_article = PAGE.replace("<article class=\"main\">", "<section>").replace("</article>", "</section>");
    assert_eq!(extract(&no_article, true), Err(ExtractionError::MissingRegion(Region::Container)));
}

#[test]
fn missing_body_writes_nothing() {
    match step("Song A", &Event::LyricPage(PAGE_WITHOUT_BODY.to_string()), true) {
        Action::Done(Outcome::Failed(ExtractionError::MissingRegion(Region::Body))) => {},
        other => panic!("unexpected action {:?}", other),
    }
}

#[test]
fn first_search_result_wins() {
    assert_eq!(resolve(LISTING), Ok(Some("https://utaten.com/lyric/123/".to_string())));
}

#[test]
fn empty_listing_is_not_found() {
    assert_eq!(resolve(EMPTY_LISTING), Ok(None));
    match step("Song A", &Event::SearchListing(EMPTY_LISTING.to_string()), true) {
        Action::Done(Outcome::NotFound) => {},
        other => panic!("unexpected action {:?}", other),
    }
}

#[test]
fn not_found_left_out_of_manifest() {
    let outcomes = vec![
        Outcome::Persisted("lyrics/Song A.html".to_string()),
        Outcome::NotFound,
        Outcome::Skipped("lyrics/Song C.html".to_string()),
        Outcome::Failed(ExtractionError::MissingRegion(Region::Body)),
    ];
    assert_eq!(manifest(&outcomes), vec!["lyrics/Song A.html".to_string(), "lyrics/Song C.html".to_string()]);
}

#[test]
fn manifest_keeps_input_order() {
    let outcomes = vec![
        Outcome::Skipped(lyric_filename("Song A")),
        Outcome::Persisted(lyric_filename("Song B / Artist B")),
    ];
    assert_eq!(
        manifest(&outcomes),
        vec!["lyrics/Song A.html".to_string(), "lyrics/Song B - Artist B.html".to_string()]
    );
}

#[test]
fn song_walks_through_every_step() {
    match start("Song B / Artist B") {
        Action::CheckExisting(f) => assert_eq!(f, "lyrics/Song B - Artist B.html"),
        other => panic!("unexpected action {:?}", other),
    }
    match step("Song B / Artist B", &Event::Existing(false), true) {
        Action::Search { title, artist } => {
            assert_eq!(title, "Song B ");
            assert_eq!(artist, " Artist B");
        },
        other => panic!("unexpected action {:?}", other),
    }
    match step("Song B / Artist B", &Event::SearchListing(LISTING.to_string()), true) {
        Action::Fetch(u) => assert_eq!(u, "https://utaten.com/lyric/123/"),
        other => panic!("unexpected action {:?}", other),
    }
    match step("Song B / Artist B", &Event::LyricPage(PAGE.to_string()), true) {
        Action::Write { filename, markup } => {
            assert_eq!(filename, "lyrics/Song B - Artist B.html");
            assert_eq!(markup, extract(PAGE, true).unwrap());
        },
        other => panic!("unexpected action {:?}", other),
    }
    match step("Song B / Artist B", &Event::Written, true) {
        Action::Done(Outcome::Persisted(f)) => assert_eq!(f, "lyrics/Song B - Artist B.html"),
        other => panic!("unexpected action {:?}", other),
    }
}

#[test]
fn existing_file_is_skipped_without_requests() {
    match step("Song A", &Event::Existing(true), true) {
        Action::Done(Outcome::Skipped(f)) => assert_eq!(f, "lyrics/Song A.html"),
        other => panic!("unexpected action {:?}", other),
    }
}

#[test]
fn relative_link_rewritten_once() {
    let once = absolute_link(&"/lyric/123".to_string());
    assert_eq!(once, "https://utaten.com/lyric/123");
    assert_eq!(absolute_link(&once), once);
    assert_eq!(absolute_link(&"//cdn.example/x".to_string()), "//cdn.example/x");
}

#[test]
fn first_result_link_on_events() {
    let attr = |n: &str, v: &str| Attr { name: n.to_string(), value: v.to_string() };
    let toks = vec![
        Token::Open("p".to_string(), vec![attr("class", "note searchResult__title")]),
        Token::Text("x".to_string()),
        Token::Open("a".to_string(), vec![attr("href", "/lyric/9/"), attr("id", "k")]),
        Token::Close("a".to_string()),
        Token::Close("p".to_string()),
    ];
    assert_eq!(first_result_link(&toks), Ok(Some("https://utaten.com/lyric/9/".to_string())));
    let unclosed = vec![Token::Open("p".to_string(), vec![attr("class", "searchResult__title")])];
    assert_eq!(first_result_link(&unclosed), Ok(None));
    let other_class = vec![
        Token::Open("p".to_string(), vec![attr("class", "searchResult__titles")]),
        Token::Open("a".to_string(), vec![attr("href", "/lyric/9/")]),
        Token::Close("a".to_string()),
        Token::Close("p".to_string()),
    ];
    assert_eq!(first_result_link(&other_class), Ok(None));
}

#[test]
fn result_link_without_target_is_a_fault() {
    let listing = "<html><body><p class=\"searchResult__title\"><a name=\"x\">Song A</a></p>\
<p class=\"searchResult__title\"><a href=\"/lyric/2/\">B</a></p></body></html>";
    assert_eq!(resolve(listing), Err(ParseError::LinkWithoutTarget));
    match step("Song A", &Event::SearchListing(listing.to_string()), true) {
        Action::Done(Outcome::Unresolved(ParseError::LinkWithoutTarget)) => {},
        other => panic!("unexpected action {:?}", other),
    }
}

#[test]
fn first_link_under_any_result_title() {
    let listing = "<html><body><p class=\"searchResult__title\">no link</p>\
<p class=\"searchResult__title\"><span><a href=\"/lyric/7/\">B</a></span></p>\
<p class=\"searchResult__title\"><a href=\"/lyric/8/\">C</a></p></body></html>";
    assert_eq!(resolve(listing), Ok(Some("https://utaten.com/lyric/7/".to_string())));
}

#[test]
fn absolute_result_link_kept() {
    let listing = "<p class=\"searchResult__title\"><a href=\"https://utaten.com/lyric/5/\">A</a></p>";
    assert_eq!(resolve(listing), Ok(Some("https://utaten.com/lyric/5/".to_string())));
}

#[test]
fn comment_and_void_elements_rendered() {
    let page = PAGE.replace("<div class=\"hiragana\">", "<div class=\"hiragana\"><!-- v1 --><img src=\"a.png\">");
    let out = extract(&page, false).unwrap();
    assert!(out.contains("<div class=\"hiragana\"><!-- v1 --><img src=\"a.png\">歌詞<br>二行</div>"));
    assert!(!out.contains("</img>"));
    assert!(!out.contains("</br>"));
}
