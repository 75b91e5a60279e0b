//! The automated-run driver: how one probe exit status drives the
//! session.  The caller runs the probe and performs the chosen action;
//! the convention on exit codes lives here.

use vstd::prelude::*;

verus! {

/// What to do with the current working-copy revision after one probe.
#[derive(Clone, Copy, Debug, PartialEq, Eq, Structural)]
pub enum ProbeAction {
    /// Exit code 0: the revision is clean; it becomes the lower bound.
    MarkGood,
    /// Any other exit code below 128 except the sentinel: the revision is
    /// defective; it becomes the upper bound.
    MarkBad,
    /// The sentinel exit code 125: the revision cannot be tested.
    MarkSkip,
    /// An exit code of 128 or above, or a probe that never ran: stop the
    /// loop and leave the session as last persisted.
    Abort,
}

/// The sentinel exit code that marks a revision untestable.
pub const SKIP_EXIT_CODE: i32 = 125;

/// Interpret one probe exit status.  `exit_code` is `None` when the probe
/// failed to execute at all.
pub fn probe_action(exit_code: Option<i32>) -> (a: ProbeAction)
    ensures
        a == spec_probe_action(exit_code),
{
    match exit_code {
        None => ProbeAction::Abort,
        Some(code) => {
            if code == 0 {
                ProbeAction::MarkGood
            } else if code == SKIP_EXIT_CODE {
                ProbeAction::MarkSkip
            } else if code < 128 {
                ProbeAction::MarkBad
            } else {
                ProbeAction::Abort
            }
        },
    }
}

/// The exit-code convention of the run loop.
pub open spec fn spec_probe_action(exit_code: Option<i32>) -> ProbeAction {
    match exit_code {
        None => ProbeAction::Abort,
        Some(code) => if code == 0 {
            ProbeAction::MarkGood
        } else if code == SKIP_EXIT_CODE {
            ProbeAction::MarkSkip
        } else if code < 128 {
            ProbeAction::MarkBad
        } else {
            ProbeAction::Abort
        },
    }
}

} // verus!
