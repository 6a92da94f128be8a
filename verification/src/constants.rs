//! Names of the workspace's files and directories, and fixed texts.

use vstd::prelude::*;

verus! {

/// The workspace directory, which is also the meta-repo's checkout.
pub const GITLAS_DIR: &'static str = ".gitlas";

/// The directory for local, never committed files (secrets).
pub const GITLAS_LOCAL_PATH: &'static str = ".gitlas/.local";

/// The configuration file inside the workspace directory.
pub const CONFIG_FILE: &'static str = "config.toml";

/// The secrets file, relative to the workspace root.
pub const SECRETS_PATH: &'static str = ".gitlas/.local/secrets.toml";

/// The name of the secrets file inside the local directory.
pub const SECRETS_FILE: &'static str = "secrets.toml";

/// The `.gitignore` of the local directory: it ignores everything but itself.
pub const LOCAL_GITIGNORE: &'static str = "*\n!.gitignore\n";

/// The meta-repo's name when the configuration does not give one.
pub const DEFAULT_META_REPO: &'static str = "gitlas";

} // verus!
