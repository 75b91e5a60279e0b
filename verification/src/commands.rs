//! The bisect command surface: the parsed arguments of each subcommand,
//! as plain data.  Argument parsing and dispatch live with the caller;
//! the session operations these commands drive live in [`crate::session`]
//! and [`crate::engine`].

use vstd::prelude::*;

verus! {

/// `bisect start`: begin a session, optionally with known bounds and
/// alternate term names (validated by [`crate::session::parse_term`]).
#[derive(Clone, Debug)]
pub struct Start {
    /// A revision known to not contain the bug.
    pub good_rev: Option<String>,
    /// A revision known to contain the bug.
    pub bad_rev: Option<String>,
    /// An alternate name for the `good` subcommand.
    pub term_good: Option<String>,
    /// An alternate name for the `bad` subcommand.
    pub term_bad: Option<String>,
}

/// `bisect good [REV]`: mark a revision as clean; the working-copy
/// revision when none is given.
#[derive(Clone, Debug)]
pub struct Good {
    pub revision: Option<String>,
}

/// `bisect bad [REV]`: mark a revision as defective; the working-copy
/// revision when none is given.
#[derive(Clone, Debug)]
pub struct Bad {
    pub revision: Option<String>,
}

/// `bisect terms`: display the configured term names.
#[derive(Clone, Copy, Debug)]
pub struct Terms {
    /// Display only the term for the `good` subcommand.
    pub term_good: bool,
    /// Display only the term for the `bad` subcommand.
    pub term_bad: bool,
}

/// `bisect skip [REV|REV:REV ...]`: exclude revisions from testing.
#[derive(Clone, Debug)]
pub struct Skip {
    pub revisions: Vec<String>,
}

/// `bisect unskip [REV|REV:REV ...]`: reinstate skipped revisions.
#[derive(Clone, Debug)]
pub struct Unskip {
    pub revisions: Vec<String>,
}

/// `bisect log`: print the replay log.
#[derive(Clone, Copy, Debug)]
pub struct Log;

/// `bisect run CMD [ARGS...]`: drive the search with a probe command
/// whose exit status is read by [`crate::driver::probe_action`].
#[derive(Clone, Debug)]
pub struct Run {
    pub cmd: String,
    pub args: Vec<String>,
}

/// `bisect replay FILE`: re-execute a recorded replay log.
#[derive(Clone, Debug)]
pub struct Replay {
    pub log_file: String,
}

/// `bisect reset [-n] [REV]`: end the session and restore the working
/// position (see [`crate::session::reset_revision`]).
#[derive(Clone, Debug)]
pub struct Reset {
    /// Leave the working copy where it is.
    pub no_update: bool,
    /// Restore to this revision instead of the original one.
    pub revision: Option<String>,
}

/// One parsed bisect subcommand.
#[derive(Clone, Debug)]
pub enum BisectCommands {
    Start(Start),
    Bad(Bad),
    Good(Good),
    Terms(Terms),
    Skip(Skip),
    Unskip(Unskip),
    Log(Log),
    Run(Run),
    Replay(Replay),
    Reset(Reset),
}

/// The `bisect` command with its parsed subcommand.
#[derive(Clone, Debug)]
pub struct Bisect {
    pub command: BisectCommands,
}

} // verus!
