//! Verified core of a YouTube Music terminal client: song lists and
//! playback states, table filters and layout, JSON navigation of
//! Innertube responses, and the parsers built on it.
pub mod auth;
pub mod common;
pub mod json;
pub mod json_text;
pub mod layout;
pub mod library;
pub mod nav;
pub mod parse;
pub mod query;
pub mod structures;
pub mod text;
pub mod ui;
pub mod view;

