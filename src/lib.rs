//! Lyrics pages reduced to a small standalone document: the page is read as a
//! flat sequence of markup events, three regions are cut out of it and trimmed,
//! relative links are made absolute, and the result is rendered back to markup.

pub mod text;
pub mod markup;
pub mod region;
pub mod extract;
pub mod song;
pub mod search;
pub mod catalog;
