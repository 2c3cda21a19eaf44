//! A parser and serializer for freedesktop "desktop entry" style files:
//! bracketed group headers, `key[locale]=value;value;...` lines, `#`
//! comments and verbatim blank-line runs.
//!
//! Parsing a file yields a [`parser::models::DesktopFile`], an ordered tree
//! that keeps every comment and blank-line run, so that rendering it again
//! reproduces the original text whenever nothing was changed.

pub mod error;
pub mod helpers;
pub mod parser;
