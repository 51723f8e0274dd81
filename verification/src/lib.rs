//! A line-oriented stream highlighter.
//!
//! An ordered set of highlight rules, each a regular expression tied to a
//! terminal color and style, is applied to every line of a text stream:
//! each non-overlapping match of a rule's pattern is wrapped in that rule's
//! ANSI color codes, and everything else passes through unchanged.

pub mod ansi;
pub mod cli;
pub mod highlight_scheme;
pub mod highlighter;
pub mod strip;
