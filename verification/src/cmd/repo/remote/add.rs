//! `git las repo remote add`: adds a remote to the current repo, or makes
//! it the repo's primary remote.

use vstd::prelude::*;

use crate::error::ConfigError;
use crate::report::{line, text5, LogLevel, LogLine};
use crate::types::raw::RawRemote;
use crate::validate::config_valid;
use crate::workspace::{add_repo_remote_outcome, edit_matches, set_repo_primary_outcome, Workspace};

verus! {

/// Sets the remote as the repo's primary remote when `primary` holds, and
/// adds it as a push remote otherwise; then reports it. Saving is left to
/// the caller.
pub fn run(
    workspace: &mut Workspace,
    name: &str,
    remote: String,
    repo_name_override: Option<String>,
    user_override: Option<String>,
    primary: bool,
) -> (res: Result<LogLine, ConfigError>)
    ensures
        final(workspace)@.root == old(workspace)@.root,
        edit_matches(
            match res {
                Ok(_) => Ok(()),
                Err(e) => Err(e),
            },
            old(workspace)@.config,
            final(workspace)@.config,
            if primary {
                set_repo_primary_outcome(
                    old(workspace)@.config,
                    name@,
                    RawRemote { name: remote, repo: repo_name_override, user: user_override }@,
                )
            } else {
                add_repo_remote_outcome(
                    old(workspace)@.config,
                    name@,
                    RawRemote { name: remote, repo: repo_name_override, user: user_override }@,
                )
            },
        ),
        config_valid(old(workspace)@.config) ==> config_valid(final(workspace)@.config),
        res matches Ok(l) ==> l@ == (if primary {
            line(LogLevel::Success, name@ + ": set primary to '"@ + remote@ + "'"@)
        } else {
            line(LogLevel::Success, name@ + ": added remote '"@ + remote@ + "'"@)
        }),
{
    proof { reveal_strlit(""); }
    if primary {
        let text = text5(name, ": set primary to '", remote.as_str(), "'", "");
        match workspace.set_repo_primary(name, remote, repo_name_override, user_override) {
            Ok(()) => Ok(LogLine { level: LogLevel::Success, text }),
            Err(e) => Err(e),
        }
    } else {
        let text = text5(name, ": added remote '", remote.as_str(), "'", "");
        match workspace.add_repo_remote(name, remote, repo_name_override, user_override) {
            Ok(()) => Ok(LogLine { level: LogLevel::Success, text }),
            Err(e) => Err(e),
        }
    }
}

} // verus!
