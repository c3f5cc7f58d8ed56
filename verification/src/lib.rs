//! Extraction of URLs from text, and the decisions of a keyboard-driven
//! picker over the URLs found.
//!
//! - `urls`: the URLs of a text, with or without repetitions.
//! - `shape`: what a URL is.
//! - `engine`: the search for a pattern in a text, as the `regex` crate does
//!   it; the one part that is trusted, not proved.
//! - `text`: strings as sequences of characters, and pieces of a text.
//! - `picker`: the list, the cursor, the keys, and the programs to run.
//! - `session`: the steps of a session on the terminal, from taking it to
//!   giving it back.

pub mod engine;
pub mod picker;
pub mod session;
pub mod shape;
pub mod text;
pub mod urls;
