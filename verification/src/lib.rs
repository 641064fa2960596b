//! Text normalisation and word-boundary annotation for word matching.
//!
//! A raw string is first made canonical: every character is replaced by
//! its image under a table of confusable characters and the result is
//! lower-cased. The canonical text is then scanned once, and every
//! character receives a [`Boundary`] that tells its place in a word. A
//! [`Sentence`] holds the canonical characters, their boundaries, one
//! marker per word and one flag per character for a matcher to set.

pub mod boundary;
pub mod chars;
pub mod confusables;
pub mod scan;
pub mod sentence;

pub use boundary::Boundary;
pub use confusables::ConfusableTable;
pub use sentence::Sentence;
pub use sentence::SentenceView;

