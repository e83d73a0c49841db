//! Engine of a recursive find-and-replace tool.
//!
//! A line-oriented search engine reports, file by file, which lines matched
//! and which lines surround them. This library turns that stream of line
//! events into match records with bounded context ([`search`], with what
//! holds of the records in [`stream`]), has each record decided by a fixed
//! policy or by the operator and stages the replacements that were accepted
//! ([`replace`], with what holds of a walk over a file in [`session`]),
//! renders what the operator is shown ([`printer`]), and rewrites the file
//! line by line from what was staged ([`rewrite`], [`lines`]).
//!
//! Around that stand the settings of a run and what follows from them
//! ([`config`]), the filter on the paths of a walk ([`paths`]), and the
//! counters of a run with the rule for when a walk stops ([`stats`]). The
//! regular-expression engine is called through [`engine`].
//!
//! The library reads no file, asks no question and prints nothing itself:
//! it says what is to be read, asked and printed, and takes what came of it.

pub mod config;
pub mod engine;
pub mod lines;
pub mod paths;
pub mod printer;
pub mod replace;
pub mod rewrite;
pub mod search;
pub mod session;
pub mod stats;
pub mod stream;
