//! Errors that the library reports.

use vstd::prelude::*;

verus! {

/// Why a command could not be planned or scheduled.
#[derive(Clone, Copy, Debug, PartialEq, Eq, Structural)]
pub enum CommandError {
    /// The date is neither `today`, `tomorrow` nor a `YYYY-MM-DD` calendar date.
    InvalidDate,
    /// The time is not `HH:MM` with an hour below 24 and a minute below 60.
    InvalidTime,
    /// No worktree is checked out for the requested branch.
    WorktreeNotFound,
}

} // verus!
