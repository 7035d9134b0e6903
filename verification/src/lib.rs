//! Verified core of a sandboxed, multi-language code-execution service.
//!
//! The library covers the service's logic: the judge-output protocol parser,
//! the version cache and toolchain provisioning decisions, the construction of
//! the sandbox invocation, and the data model shared with the surrounding web
//! application.

pub mod cachemap;
pub mod challenge;
pub mod discord;
pub mod display;
pub mod error;
pub mod judge;
pub mod langs;
pub mod parse_output;
pub mod provision;
pub mod ranking;
pub mod run;
pub mod slug;
pub mod solutions;
pub mod text;
pub mod vite;
pub mod web;

use vstd::prelude::*;

verus! {

/// Number of test cases a judge may report before the result is clamped.
pub const MAX_TEST_CASES: usize = 50;

/// Byte ceiling for the textual content of one test case.
pub const MAX_OUTPUT_LENGTH: usize = 10000;

/// Byte ceiling for the captured standard error of a run.
pub const MAX_STDERR_LENGTH: usize = 1000;

} // verus!
