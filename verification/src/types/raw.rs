//! The configuration as it is stored in the workspace's `config.toml`, and
//! the secrets as they are stored beside it.

use vstd::prelude::*;

use crate::strmap::StrMap;

verus! {

/// The view of an optional string.
pub open spec fn opt_str(o: Option<String>) -> Option<Seq<char>> {
    match o {
        Some(s) => Some(s@),
        None => None,
    }
}

/// A global remote as it is seen in specifications.
pub struct RemoteConfigView {
    pub url: Seq<char>,
    pub user: Seq<char>,
}

/// A hosting provider: its base URL and the default user or organisation.
#[derive(Debug)]
pub struct RawRemoteConfig {
    pub url: String,
    pub user: String,
}

impl View for RawRemoteConfig {
    type V = RemoteConfigView;

    open spec fn view(&self) -> RemoteConfigView {
        RemoteConfigView { url: self.url@, user: self.user@ }
    }
}

/// A reference to a global remote as it is seen in specifications.
pub struct RemoteRefView {
    pub name: Seq<char>,
    pub repo: Option<Seq<char>>,
    pub user: Option<Seq<char>>,
}

/// A reference from a repo to a global remote, with optional overrides of
/// the repository name and of the user on that remote.
#[derive(Debug)]
pub struct RawRemote {
    pub name: String,
    pub repo: Option<String>,
    pub user: Option<String>,
}

impl View for RawRemote {
    type V = RemoteRefView;

    open spec fn view(&self) -> RemoteRefView {
        RemoteRefView { name: self.name@, repo: opt_str(self.repo), user: opt_str(self.user) }
    }
}

/// The view of a list of references.
pub open spec fn refs_view(v: Seq<RawRemote>) -> Seq<RemoteRefView> {
    v.map_values(|r: RawRemote| r@)
}

/// The view of an optional reference.
pub open spec fn opt_ref(o: Option<RawRemote>) -> Option<RemoteRefView> {
    match o {
        Some(r) => Some(r@),
        None => None,
    }
}

/// A tracked repo as it is seen in specifications.
pub struct RepoView {
    pub primary: Option<RemoteRefView>,
    pub remotes: Seq<RemoteRefView>,
}

/// A tracked repo: the remote it is pulled from, and the remotes it is
/// pushed to (all global remotes when the list is empty).
#[derive(Debug)]
pub struct RawRepo {
    pub primary: Option<RawRemote>,
    pub remotes: Vec<RawRemote>,
}

impl View for RawRepo {
    type V = RepoView;

    open spec fn view(&self) -> RepoView {
        RepoView { primary: opt_ref(self.primary), remotes: refs_view(self.remotes@) }
    }
}

impl Default for RawRepo {
    fn default() -> (r: Self)
        ensures
            r@ == (RepoView { primary: None, remotes: Seq::empty() }),
    {
        let r = RawRepo { primary: None, remotes: Vec::new() };
        assert(r@.remotes =~= Seq::<RemoteRefView>::empty());
        r
    }
}

/// The meta-repo section as it is seen in specifications.
pub struct MetaView {
    pub repo: Option<Seq<char>>,
    pub primary: Option<RemoteRefView>,
    pub remotes: Seq<RemoteRefView>,
}

/// The `.gitlas/` meta-repo: its name on the remotes, and like any repo its
/// primary remote and push remotes.
#[derive(Debug)]
pub struct RawMeta {
    pub repo: Option<String>,
    pub primary: Option<RawRemote>,
    pub remotes: Vec<RawRemote>,
}

impl View for RawMeta {
    type V = MetaView;

    open spec fn view(&self) -> MetaView {
        MetaView { repo: opt_str(self.repo), primary: opt_ref(self.primary), remotes: refs_view(self.remotes@) }
    }
}

impl Default for RawMeta {
    fn default() -> (r: Self)
        ensures
            r@ == (MetaView { repo: None, primary: None, remotes: Seq::empty() }),
    {
        let r = RawMeta { repo: None, primary: None, remotes: Vec::new() };
        assert(r@.remotes =~= Seq::<RemoteRefView>::empty());
        r
    }
}

/// The whole configuration as it is seen in specifications.
pub struct ConfigView {
    pub meta: MetaView,
    pub remotes: Seq<(Seq<char>, RemoteConfigView)>,
    pub repos: Seq<(Seq<char>, RepoView)>,
}

/// The workspace configuration: the meta-repo, the global remotes by name,
/// and the tracked repos by name.
#[derive(Debug)]
pub struct RawConfig {
    pub meta: RawMeta,
    pub remotes: StrMap<RawRemoteConfig>,
    pub repo: StrMap<RawRepo>,
}

impl View for RawConfig {
    type V = ConfigView;

    open spec fn view(&self) -> ConfigView {
        ConfigView { meta: self.meta@, remotes: self.remotes@, repos: self.repo@ }
    }
}

impl Default for RawConfig {
    fn default() -> (r: Self)
        ensures
            r@ == (ConfigView {
                meta: MetaView { repo: None, primary: None, remotes: Seq::empty() },
                remotes: Seq::empty(),
                repos: Seq::empty(),
            }),
    {
        RawConfig { meta: RawMeta::default(), remotes: StrMap::new(), repo: StrMap::new() }
    }
}

/// The stored token of one remote.
#[derive(Debug)]
pub struct RawRemoteSecrets {
    pub token: Option<String>,
}

impl View for RawRemoteSecrets {
    type V = Option<Seq<char>>;

    open spec fn view(&self) -> Option<Seq<char>> {
        opt_str(self.token)
    }
}

impl Default for RawRemoteSecrets {
    fn default() -> (r: Self)
        ensures
            r@ == None::<Seq<char>>,
    {
        RawRemoteSecrets { token: None }
    }
}

/// The secrets file: a token per remote name.
#[derive(Debug)]
pub struct RawSecretsConfig {
    pub remotes: StrMap<RawRemoteSecrets>,
}

impl View for RawSecretsConfig {
    type V = Seq<(Seq<char>, Option<Seq<char>>)>;

    open spec fn view(&self) -> Seq<(Seq<char>, Option<Seq<char>>)> {
        self.remotes@
    }
}

impl Default for RawSecretsConfig {
    fn default() -> (r: Self)
        ensures
            r@ == Seq::<(Seq<char>, Option<Seq<char>>)>::empty(),
    {
        RawSecretsConfig { remotes: StrMap::new() }
    }
}

} // verus!
