//! Extraction of a "full performance level" pay grade from free-form
//! position-description text.
//!
//! - `grammar`: the phrase, connective and grade-token grammar, as spec
//!   functions over characters and the parsers proved to follow them.
//! - `extract`: the scan for the first place where a phrase family yields a
//!   grade, and the public entry points.
//! - `normalize`: whitespace collapsing and lower-casing of a text.
//! - `records`: deduplication of records by normalized text.
//! - `render`: the highlighted, escaped HTML form of a text.
//! - `laws`: properties that hold of every text.
mod chars;
pub mod extract;
pub mod grammar;
pub mod laws;
pub mod normalize;
pub mod records;
pub mod render;
