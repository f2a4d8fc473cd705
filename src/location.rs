//! Choosing the directory a command runs in and the branch it is recorded under.

use vstd::prelude::*;
use crate::error::CommandError;

verus! {

/// Where a command runs and which git branch it belongs to.
#[derive(Debug)]
pub struct Location {
    pub path: String,
    pub branch: String,
}

/// Whether resolution needs the worktree bound to the requested branch.
pub fn needs_worktree_lookup(worktree: bool, branch: &Option<String>) -> (r: bool)
    ensures
        r == (worktree && branch is Some),
{
    worktree && branch.is_some()
}

/// The directory and branch that resolution picks, from the answers of the
/// current-directory, current-branch and worktree lookups.
pub open spec fn resolution(
    worktree: bool,
    branch: Option<String>,
    current_dir: String,
    current_branch: String,
    worktree_path: Option<String>,
) -> Result<Location, CommandError> {
    if worktree && branch is Some {
        match worktree_path {
            Some(p) => Ok(Location { path: p, branch: branch->Some_0 }),
            None => Err(CommandError::WorktreeNotFound),
        }
    } else {
        Ok(Location { path: current_dir, branch: current_branch })
    }
}

/// Picks the execution directory and branch. With `worktree` and a branch,
/// the branch's worktree (`worktree_path`, as the git lookup answered) is
/// used and a missing one is an error; otherwise the current directory and
/// the current branch.
pub fn resolve_location(
    worktree: bool,
    branch: Option<String>,
    current_dir: String,
    current_branch: String,
    worktree_path: Option<String>,
) -> (r: Result<Location, CommandError>)
    ensures
        r == resolution(worktree, branch, current_dir, current_branch, worktree_path),
{
    if worktree {
        if let Some(name) = branch {
            return match worktree_path {
                Some(p) => Ok(Location { path: p, branch: name }),
                None => Err(CommandError::WorktreeNotFound),
            };
        }
    }
    Ok(Location { path: current_dir, branch: current_branch })
}

/// Asking for a worktree without naming a branch resolves to exactly the
/// current directory and the current branch, whatever a worktree lookup
/// would have answered, just as when no worktree is asked for.
pub proof fn worktree_without_branch_is_current(
    current_dir: String,
    current_branch: String,
    worktree_path: Option<String>,
)
    ensures
        resolution(true, None, current_dir, current_branch, worktree_path) == Ok::<
            Location,
            CommandError,
        >(Location { path: current_dir, branch: current_branch }),
        resolution(true, None, current_dir, current_branch, worktree_path) == resolution(
            false,
            None,
            current_dir,
            current_branch,
            worktree_path,
        ),
{
}

} // verus!
