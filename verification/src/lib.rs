//! Static audit of source text for foreign-function and unsafe-code signals.
//!
//! A file's raw bytes go through four steps: decoding to text, counting lines and
//! textual `unsafe` markers, scanning the parsed top-level items, and folding the
//! per-file signals into repository-wide totals with a classification.

pub mod enumerate;
pub mod parse;
pub mod scan;
pub mod stats;
pub mod syntax;
pub mod text;
