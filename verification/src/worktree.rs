//! What removing a linked worktree does to the terminals running in it.
use vstd::prelude::*;

verus! {

/// `std::path::is_separator('\\')`: whether a backslash separates path components
/// on the platform the code was built for. The standard library documents the
/// backslash as a separator on Windows only; the platform is not stated here.
#[verifier::external_body]
fn backslash_separates_paths() -> (r: bool) {
    std::path::is_separator('\\')
}

/// Whether the terminals of a worktree's workspace are shut down before the
/// worktree is removed: on a forced removal, and always on Windows, where files
/// open in a running process cannot be deleted.
pub open spec fn spec_shutdown_before_remove(force: bool, windows: bool) -> bool {
    force || windows
}

/// Whether the terminals are shut down before removal, on a platform that is
/// Windows or not as `windows` says.
pub fn shutdown_before_remove(force: bool, windows: bool) -> (r: bool)
    ensures
        r == spec_shutdown_before_remove(force, windows),
{
    force || windows
}

/// Whether the terminals are shut down before removal on this platform: always on
/// a forced removal; otherwise exactly when the platform is Windows.
pub fn should_shutdown_workspace_terminal_runtimes_for_worktree_remove(force: bool) -> (r: bool)
    ensures
        force ==> r,
{
    let windows = backslash_separates_paths();
    shutdown_before_remove(force, windows)
}

} // verus!
