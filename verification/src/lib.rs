//! The core of an icon browser: a catalog of named glyphs, the search and
//! filter predicate over it, the partition of the visible icons into grid
//! rows, the tracking of focus changes of the search field, and the state of
//! the browser with its transitions.
//!
//! Every function here is verified against the contract written on it. What
//! rests on trust is the reading of JSON text, which is left to `serde_json`
//! (see `json`), and the making of a character from its code point (see
//! `text`).

pub mod browser;
pub mod clipboard;
pub mod filter;
pub mod focus;
pub mod json;
pub mod layout;
pub mod loading;
pub mod models;
pub mod styling;
pub mod text;
