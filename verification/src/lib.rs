//! Tools for a differential test harness over `.santat` test-case files:
//! a lossless section-based document model, target invocation planning,
//! per-check judgement with diff rendering, expectation updating, and the
//! small pure helpers of the surrounding scaffolding, journal and site tools.

pub mod checks;
pub mod document;
pub mod executor;
pub mod journal;
pub mod site;
pub mod scaffold;
pub mod report;
pub mod runner;
pub mod text;
pub mod update;

use vstd::prelude::*;

verus! {

} // verus!
