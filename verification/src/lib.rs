//! A small viewer library for plain-text outline documents.
//!
//! A document is an ordered list of lines. Lines that begin with one, two or
//! three `*` characters are headings, rendered bold; other lines may carry
//! inline emphasis spans delimited by `_` (underline) or `/` (italic). The
//! viewer keeps a scroll offset into the document, moves it one line per key
//! event, and renders the window of lines that fits the terminal height.

pub mod formatter;

pub mod loader;

pub mod text;

pub mod viewer;
