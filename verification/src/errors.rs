//! The error taxonomy of the bisection engine.
//!
//! Every error names the exact condition under which the functions of this
//! crate report it; the conditions are pinned in each function's `ensures`.

use vstd::prelude::*;

verus! {

/// Errors reported by the session engine and the revision resolver.
#[derive(Clone, Copy, Debug, PartialEq, Eq, Structural)]
pub enum SvError {
    /// `start` was requested while a session already exists.
    SessionAlreadyActive,
    /// An operation that needs an active session found none.
    NoSession,
    /// A new bound would collapse or invert the bound ordering.
    InvalidBoundOrder,
    /// The two configured term names are equal.
    DuplicateBoundName,
    /// A term does not match the identifier grammar.
    InvalidTerm,
    /// A term equals a reserved subcommand name.
    TermMasksCommand,
    /// A revision expression matches neither grammar accepted here.
    MalformedRevisionExpression,
    /// The history window is too short to satisfy the requested offset.
    UnresolvableRevision,
    /// Narrowing was requested before both bounds were set.
    EngineNotReady,
    /// The probe command exited with an unrecoverable status.
    UnrecoverableProbeExit,
}

} // verus!
