//! Streams JSON records from standard input or a chain of files, matches each
//! against a table of compiled rules, and routes every match to its output.
use vstd::prelude::*;

pub mod driver;
pub mod engine;
pub mod match_sink;
pub mod record_source;
pub mod rules;

verus! {

} // verus!
