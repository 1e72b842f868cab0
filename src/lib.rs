//! Plain-text slide decks: the document grammar, the font-size search, the
//! navigation state machine, themes and overlay layout.

pub mod document;
pub mod fit;
pub mod text;
pub mod laws;
pub mod presentation;
pub mod theming;
pub mod config;
