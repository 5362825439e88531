//! Lexical census of a source-code corpus.
//!
//! The library classifies lines of text against a catalog of pattern
//! matchers grouped into profiles, tallies matches per semantic category,
//! merges per-subdirectory tallies into a grand total, and computes
//! percentage-normalized listings and a pivot table for reporting. All
//! I/O — argument handling, directory walking, file reading, printing —
//! stays with the surrounding program, which hands the library plain
//! values.

pub mod catalog;
pub mod counts;
pub mod errors;
pub mod matching;
pub mod report;
pub mod scan;

pub use errors::CensusError;
