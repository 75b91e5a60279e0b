//! Bisection session engine for a Subversion working copy.
//!
//! The crate models the state of a `bisect` session (outer bounds, skip
//! set, configurable term names), resolves symbolic revision expressions
//! against a supplied history window, and narrows the candidate range by
//! binary search.  All file, network and subprocess traffic stays with the
//! callers: every function here computes over plain values.

pub mod auth;
pub mod commands;
pub mod driver;
pub mod engine;
pub mod errors;
pub mod laws;
pub mod logfmt;
pub mod revision;
pub mod revset;
pub mod session;
pub mod svn;
