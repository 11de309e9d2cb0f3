//! Core of a build and test orchestrator.
//!
//! - `target`: addresses `//<package>:<identifier>` and the matchers that select them.
//! - `targets`: the kinds of target found in a source tree, and the commands that test them.
//! - `cache`: pointer records, content hashes and the plan for copying one file
//!   into or out of a content-addressed cache, with the laws the plan obeys.
//! - `tree_copy`: the walk that copies a file tree as those plans say, one
//!   request to the file system at a time.
//! - `multi_runner`: the decisions of a runner of named tasks in a bounded
//!   number of slots that stops at the first error.

pub mod cache;
pub mod multi_runner;
pub mod target;
pub mod targets;
pub mod text;
pub mod tree_copy;
