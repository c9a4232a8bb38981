//! The replacement-and-traversal engine of a batch text-replacement tool:
//! given replacement pairs and ignore entries merged from configuration and
//! command-line overrides, it compiles them into rules and exclusion matchers
//! and rewrites text by applying every rule in order.
//!
//! The stages run strictly in sequence: the rule resolver ([`resolve`]), the
//! pattern compiler ([`pattern`], [`glob`], [`ignore`]), and the applier
//! ([`engine`]). All failures of the first two stages are detected before any
//! file is touched. File and console I/O, argument parsing and configuration
//! deserialization stay outside this crate.

use vstd::prelude::*;

pub mod engine;
pub mod glob;
pub mod ignore;
pub mod pairs;
pub mod pattern;
pub mod resolve;

verus! {

/// A run-fatal error detected before any file is touched.
#[derive(Debug)]
pub enum ReplacerError {
    /// No replacement pairs were resolved from configuration or overrides.
    EmptyRuleSet,
    /// A replacement pattern or ignore glob failed to compile; holds the
    /// offending pattern source.
    InvalidPattern(String),
    /// A `key=value` replacement-pair argument held no `=`; holds the
    /// offending argument.
    InvalidPairFormat(String),
}

} // verus!
