//! `git las init`: the name of the meta-repo of a new workspace.

use vstd::prelude::*;

use crate::constants::DEFAULT_META_REPO;
use crate::text::{trim, trimmed};

verus! {

/// The meta-repo name that the user typed, trimmed; `gitlas` when nothing
/// but whitespace was typed.
pub fn meta_repo_name(input: &str) -> (name: String)
    ensures
        name@ == (if trimmed(input@).len() == 0 {
            DEFAULT_META_REPO@
        } else {
            trimmed(input@)
        }),
{
    let name = trim(input);
    if name.as_str().unicode_len() == 0 {
        DEFAULT_META_REPO.to_owned()
    } else {
        name
    }
}

} // verus!
