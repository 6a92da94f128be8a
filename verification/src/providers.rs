//! Where each hosting provider's command-line tool keeps its token, as the
//! tool's parsed configuration; finding the token in it.

use vstd::prelude::*;

use crate::strmap::{has_key, value_for, StrMap};
use crate::text::{strip_trailing_slashes, trim_end_slashes};
use crate::types::raw::opt_str;

verus! {

/// The copy of an optional string.
fn clone_opt(o: &Option<String>) -> (r: Option<String>)
    ensures
        opt_str(r) == opt_str(*o),
{
    match o {
        Some(s) => Some(s.clone()),
        None => None,
    }
}

/// An entry of the `gh` tool's `hosts.yml`.
pub struct GhHost {
    pub oauth_token: Option<String>,
}

impl View for GhHost {
    type V = Option<Seq<char>>;

    open spec fn view(&self) -> Option<Seq<char>> {
        opt_str(self.oauth_token)
    }
}

/// GitHub, whose `gh` tool keeps a token per host in `~/.config/gh/hosts.yml`.
pub struct GitHub {
    pub host: String,
}

impl GitHub {
    /// The token of this host in the parsed `hosts.yml`, if any.
    pub fn token_from_config(&self, hosts: &StrMap<GhHost>) -> (t: Option<String>)
        ensures
            opt_str(t) == (if has_key(hosts@, self.host@) {
                value_for(hosts@, self.host@)
            } else {
                None
            }),
    {
        match hosts.get(self.host.as_str()) {
            Some(h) => clone_opt(&h.oauth_token),
            None => None,
        }
    }
}

/// An entry of the `glab` tool's configuration.
pub struct GlabHost {
    pub token: Option<String>,
}

impl View for GlabHost {
    type V = Option<Seq<char>>;

    open spec fn view(&self) -> Option<Seq<char>> {
        opt_str(self.token)
    }
}

/// The `glab` tool's `config.yml`: a token per host.
pub struct GlabConfig {
    pub hosts: Option<StrMap<GlabHost>>,
}

/// GitLab, whose `glab` tool keeps a token per host in
/// `~/.config/glab-cli/config.yml`.
pub struct GitLab {
    pub host: String,
}

impl GitLab {
    /// The token of this host in the parsed configuration, if any.
    pub fn token_from_config(&self, config: &GlabConfig) -> (t: Option<String>)
        ensures
            opt_str(t) == (match config.hosts {
                Some(h) => if has_key(h@, self.host@) {
                    value_for(h@, self.host@)
                } else {
                    None
                },
                None => None,
            }),
    {
        match &config.hosts {
            Some(hosts) => match hosts.get(self.host.as_str()) {
                Some(h) => clone_opt(&h.token),
                None => None,
            },
            None => None,
        }
    }
}

/// A login of the `tea` tool: the server's URL and its token.
pub struct TeaLogin {
    pub url: String,
    pub token: Option<String>,
}

/// The `tea` tool's `config.yml`: its logins.
pub struct TeaConfig {
    pub logins: Option<Vec<TeaLogin>>,
}

/// The position of the first login at or after `i` whose URL, without
/// trailing slashes, is `target`; the number of logins when there is none.
pub open spec fn tea_find_from(logins: Seq<TeaLogin>, target: Seq<char>, i: nat) -> nat
    decreases logins.len() - i,
{
    if i >= logins.len() {
        logins.len()
    } else if strip_trailing_slashes(logins[i as int].url@) == target {
        i
    } else {
        tea_find_from(logins, target, i + 1)
    }
}

/// The search from `i` stops at the first login, from `i` on, whose URL
/// without trailing slashes is `target`: every login it passes is for
/// another server, and it finds none only when none is left.
pub proof fn law_tea_finds_the_first_login(logins: Seq<TeaLogin>, target: Seq<char>, i: nat)
    requires
        i <= logins.len(),
    ensures
        i <= tea_find_from(logins, target, i) <= logins.len(),
        forall|k: int|
            i <= k < tea_find_from(logins, target, i) ==> strip_trailing_slashes(#[trigger] logins[k].url@) != target,
        tea_find_from(logins, target, i) < logins.len() ==> strip_trailing_slashes(
            logins[tea_find_from(logins, target, i) as int].url@,
        ) == target,
    decreases logins.len() - i,
{
    if i < logins.len() && strip_trailing_slashes(logins[i as int].url@) != target {
        law_tea_finds_the_first_login(logins, target, i + 1);
    }
}

/// Gitea or Forgejo, whose `tea` tool keeps a login per server in
/// `~/.tea/config.yml`.
pub struct Gitea {
    pub base_url: String,
}

impl Gitea {
    /// The token of the first login for this server (URLs are compared
    /// without trailing slashes), if any.
    pub fn token_from_config(&self, config: &TeaConfig) -> (t: Option<String>)
        ensures
            opt_str(t) == (match config.logins {
                Some(l) => {
                    let i = tea_find_from(l@, strip_trailing_slashes(self.base_url@), 0);
                    if i < l@.len() {
                        opt_str(l@[i as int].token)
                    } else {
                        None
                    }
                },
                None => None,
            }),
    {
        let target = trim_end_slashes(self.base_url.as_str());
        match &config.logins {
            Some(logins) => {
                let mut i: usize = 0;
                while i < logins.len()
                    invariant
                        i <= logins@.len(),
                        config.logins == Some(*logins),
                        target@ == strip_trailing_slashes(self.base_url@),
                        tea_find_from(logins@, target@, 0) == tea_find_from(logins@, target@, i as nat),
                    decreases logins@.len() - i,
                {
                    let url = trim_end_slashes(logins[i].url.as_str());
                    if url == target {
                        assert(strip_trailing_slashes(logins@[i as int].url@) == target@);
                        assert(tea_find_from(logins@, target@, i as nat) == i);
                        return clone_opt(&logins[i].token);
                    }
                    i = i + 1;
                }
                None
            },
            None => None,
        }
    }
}

/// The `[auth]` table of the `bb` tool's configuration.
pub struct BbAuth {
    pub token: Option<String>,
}

/// The `bb` tool's `config.toml`.
pub struct BbConfig {
    pub auth: Option<BbAuth>,
}

/// Bitbucket, whose `bb` tool keeps its token in `~/.config/bb/config.toml`.
pub struct Bitbucket;

impl Bitbucket {
    /// The token of the `[auth]` table, if any.
    pub fn token_from_config(&self, config: &BbConfig) -> (t: Option<String>)
        ensures
            opt_str(t) == (match config.auth {
                Some(a) => opt_str(a.token),
                None => None,
            }),
    {
        match &config.auth {
            Some(a) => clone_opt(&a.token),
            None => None,
        }
    }
}

} // verus!
