//! A compact, column-narrow "map" of a text buffer for a narrow side panel.
//!
//! Sparse per-line events (diagnostics, change hunks) are folded into dense
//! per-line intensity arrays, aggregated pairwise into half-character blocks,
//! downsampled to a fixed number of display rows, and rendered as one short
//! string per row with a cursor / selection / viewport marker column.

pub mod channel_stream;
pub mod highlighter;
pub mod message;
pub mod picomap;
pub mod server;
