//! Support for publishing into a content-addressed repository: a guard that
//! ties a repository transaction to a scope, retry with exponential backoff,
//! lookup of a path in a tree of named children, and the parsing of refs and
//! of job and build identifiers.
//!
//! The library performs no input or output of its own. Whatever touches the
//! repository, the clock or the environment is done by the caller, who hands
//! the outcome to the functions here and does what they answer.

pub mod ids;
pub mod refs;
pub mod retry;
pub mod segments;
pub mod transaction;
pub mod tree;
