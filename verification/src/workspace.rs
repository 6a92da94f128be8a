//! The `.gitlas/` workspace: its root and its configuration, and the edits
//! that the commands make to the configuration.

use vstd::prelude::*;

use crate::constants::DEFAULT_META_REPO;
use crate::error::{ConfigError, ErrorView};
use crate::resolve::{config_resolvable, meta_name_of, resolve_config, resolved_config_of};
use crate::strmap::{
    has_key, key_index, lemma_insert_unique, lemma_key_index, lemma_remove_unique,
    table_insert, table_remove, value_for,
};
use crate::types::raw::{
    ConfigView, MetaView, RawConfig, RawRemote, RawRemoteConfig, RawRepo, RemoteConfigView,
    RemoteRefView, RepoView, opt_ref, refs_view,
};
use crate::types::resolved::ResolvedConfig;
use crate::validate::{
    config_check, config_valid, remote_list_ok, repo_valid, validate_config, Globals,
};

verus! {

/// The configuration with other global remotes.
pub open spec fn with_remotes(c: ConfigView, remotes: Globals) -> ConfigView {
    ConfigView { meta: c.meta, remotes, repos: c.repos }
}

/// The configuration with other repos.
pub open spec fn with_repos(c: ConfigView, repos: Seq<(Seq<char>, RepoView)>) -> ConfigView {
    ConfigView { meta: c.meta, remotes: c.remotes, repos }
}

/// The configuration after declaring (or redeclaring) a global remote.
pub open spec fn added_remote(c: ConfigView, name: Seq<char>, url: Seq<char>, user: Seq<char>) -> ConfigView {
    with_remotes(c, table_insert(c.remotes, name, RemoteConfigView { url, user }))
}

/// Some entry of the list names the remote.
pub open spec fn lists_remote(list: Seq<RemoteRefView>, name: Seq<char>) -> bool {
    exists|i: int| 0 <= i < list.len() && #[trigger] list[i].name == name
}

/// The repo pulls from or pushes to the remote.
pub open spec fn refers_to(repo: RepoView, name: Seq<char>) -> bool {
    ||| (repo.primary matches Some(p) && p.name == name)
    ||| lists_remote(repo.remotes, name)
}

/// The meta-repo pulls from or pushes to the remote.
pub open spec fn meta_refers_to(meta: MetaView, name: Seq<char>) -> bool {
    ||| (meta.primary matches Some(p) && p.name == name)
    ||| lists_remote(meta.remotes, name)
}

/// The names of the repos that refer to the remote, in order.
pub open spec fn repos_referring(repos: Seq<(Seq<char>, RepoView)>, name: Seq<char>) -> Seq<Seq<char>>
    decreases repos.len(),
{
    if repos.len() == 0 {
        Seq::empty()
    } else {
        let rest = repos_referring(repos.drop_last(), name);
        if refers_to(repos.last().1, name) {
            rest.push(repos.last().0)
        } else {
            rest
        }
    }
}

/// The names of the repos that refer to the remote: the meta-repo first,
/// then the tracked repos in order.
pub open spec fn remote_users(c: ConfigView, name: Seq<char>) -> Seq<Seq<char>> {
    let repos = repos_referring(c.repos, name);
    if meta_refers_to(c.meta, name) {
        seq![meta_name_of(c)] + repos
    } else {
        repos
    }
}

/// What removing a global remote gives: a refusal while the meta-repo or a
/// tracked repo refers to it, or when it is not declared; otherwise the
/// configuration without it.
pub open spec fn remove_remote_outcome(c: ConfigView, name: Seq<char>) -> Result<ConfigView, ErrorView> {
    let refs = remote_users(c, name);
    if refs.len() > 0 {
        Err(ErrorView::RemoteInUse { remote: name, repos: refs })
    } else if !has_key(c.remotes, name) {
        Err(ErrorView::RemoteNotFound { remote: name })
    } else {
        Ok(with_remotes(c, table_remove(c.remotes, name)))
    }
}

/// A repo with no primary remote and no push remote.
pub open spec fn empty_repo() -> RepoView {
    RepoView { primary: None, remotes: Seq::empty() }
}

/// The configuration after tracking a repo (unchanged if it is tracked).
pub open spec fn added_repo(c: ConfigView, name: Seq<char>) -> ConfigView {
    if has_key(c.repos, name) {
        c
    } else {
        with_repos(c, c.repos.push((name, empty_repo())))
    }
}

/// What untracking a repo gives.
pub open spec fn remove_repo_outcome(c: ConfigView, name: Seq<char>) -> Result<ConfigView, ErrorView> {
    if !has_key(c.repos, name) {
        Err(ErrorView::RepoNotTracked { repo: name })
    } else {
        Ok(with_repos(c, table_remove(c.repos, name)))
    }
}

/// The list without the entries that name the remote, in order.
pub open spec fn without_remote(list: Seq<RemoteRefView>, name: Seq<char>) -> Seq<RemoteRefView>
    decreases list.len(),
{
    if list.len() == 0 {
        list
    } else {
        let rest = without_remote(list.drop_last(), name);
        if list.last().name != name {
            rest.push(list.last())
        } else {
            rest
        }
    }
}

/// The configuration with the tracked repo `name` replaced.
pub open spec fn with_repo(c: ConfigView, name: Seq<char>, repo: RepoView) -> ConfigView {
    with_repos(c, c.repos.update(key_index(c.repos, name), (name, repo)))
}

/// What adding a push remote to a repo gives: a refusal when the remote is
/// not declared or the repo not tracked; otherwise the repo lists the new
/// reference last, in place of any earlier one to the same remote.
pub open spec fn add_repo_remote_outcome(c: ConfigView, repo_name: Seq<char>, r: RemoteRefView) -> Result<ConfigView, ErrorView> {
    if !has_key(c.remotes, r.name) {
        Err(ErrorView::UnknownRemote { remote: r.name })
    } else if !has_key(c.repos, repo_name) {
        Err(ErrorView::RepoNotTracked { repo: repo_name })
    } else {
        let old = value_for(c.repos, repo_name);
        Ok(with_repo(c, repo_name, RepoView { primary: old.primary, remotes: without_remote(old.remotes, r.name).push(r) }))
    }
}

/// What removing a push remote from a repo gives.
pub open spec fn remove_repo_remote_outcome(c: ConfigView, repo_name: Seq<char>, remote: Seq<char>) -> Result<ConfigView, ErrorView> {
    if !has_key(c.repos, repo_name) {
        Err(ErrorView::RepoNotTracked { repo: repo_name })
    } else if !lists_remote(value_for(c.repos, repo_name).remotes, remote) {
        Err(ErrorView::RepoRemoteNotFound { repo: repo_name, remote })
    } else {
        let old = value_for(c.repos, repo_name);
        Ok(with_repo(c, repo_name, RepoView { primary: old.primary, remotes: without_remote(old.remotes, remote) }))
    }
}

/// What setting the primary remote of a repo gives.
pub open spec fn set_repo_primary_outcome(c: ConfigView, repo_name: Seq<char>, r: RemoteRefView) -> Result<ConfigView, ErrorView> {
    if !has_key(c.remotes, r.name) {
        Err(ErrorView::UnknownRemote { remote: r.name })
    } else if !has_key(c.repos, repo_name) {
        Err(ErrorView::RepoNotTracked { repo: repo_name })
    } else {
        let old = value_for(c.repos, repo_name);
        Ok(with_repo(c, repo_name, RepoView { primary: Some(r), remotes: old.remotes }))
    }
}

/// An edit's result agrees with its outcome: on success the configuration is
/// the outcome's, on refusal it is unchanged and the refusal is the outcome's.
pub open spec fn edit_matches(
    res: Result<(), ConfigError>,
    before: ConfigView,
    after: ConfigView,
    outcome: Result<ConfigView, ErrorView>,
) -> bool {
    match res {
        Ok(()) => outcome == Ok::<ConfigView, ErrorView>(after),
        Err(e) => outcome == Err::<ConfigView, ErrorView>(e@) && after == before,
    }
}

/// What `without_remote` keeps: entries of the list, none naming the remote.
pub proof fn lemma_without_remote(list: Seq<RemoteRefView>, name: Seq<char>)
    ensures
        without_remote(list, name).len() <= list.len(),
        forall|i: int|
            0 <= i < without_remote(list, name).len() ==> #[trigger] without_remote(list, name)[i].name
                != name,
        forall|i: int|
            0 <= i < without_remote(list, name).len() ==> exists|j: int|
                0 <= j < list.len() && #[trigger] without_remote(list, name)[i] == list[j],
        !lists_remote(without_remote(list, name), name),
    decreases list.len(),
{
    let w = without_remote(list, name);
    if list.len() > 0 {
        let d = list.drop_last();
        let rest = without_remote(d, name);
        lemma_without_remote(d, name);
        assert forall|i: int| 0 <= i < w.len() implies exists|j: int|
            0 <= j < list.len() && #[trigger] w[i] == list[j] by {
            if i < rest.len() {
                assert(w[i] == rest[i]);
                let j = choose|j: int| 0 <= j < d.len() && #[trigger] rest[i] == d[j];
                assert(list[j] == d[j]);
            } else {
                assert(w[i] == list[list.len() - 1]);
            }
        }
        assert forall|i: int| 0 <= i < w.len() implies #[trigger] w[i].name != name by {
            if i < rest.len() {
                assert(w[i] == rest[i]);
            }
        }
    }
}

/// A list that does not name the remote is kept whole.
pub proof fn lemma_without_absent(list: Seq<RemoteRefView>, name: Seq<char>)
    requires
        !lists_remote(list, name),
    ensures
        without_remote(list, name) == list,
    decreases list.len(),
{
    if list.len() > 0 {
        let d = list.drop_last();
        assert(!lists_remote(d, name)) by {
            if lists_remote(d, name) {
                let i = choose|i: int| 0 <= i < d.len() && #[trigger] d[i].name == name;
                assert(list[i] == d[i]);
            }
        }
        lemma_without_absent(d, name);
        assert(list[list.len() - 1].name != name);
        assert(without_remote(list, name) =~= list);
    }
}

/// Dropping the entries that name a remote keeps a well-formed list well formed.
pub proof fn lemma_without_ok(list: Seq<RemoteRefView>, name: Seq<char>, globals: Globals)
    requires
        remote_list_ok(list, globals),
    ensures
        remote_list_ok(without_remote(list, name), globals),
    decreases list.len(),
{
    let w = without_remote(list, name);
    if list.len() > 0 {
        let d = list.drop_last();
        let rest = without_remote(d, name);
        assert(remote_list_ok(d, globals)) by {
            assert forall|i: int| 0 <= i < d.len() implies has_key(globals, #[trigger] d[i].name) by {
                assert(d[i] == list[i]);
            }
            assert forall|i: int, j: int| 0 <= j < i < d.len() implies #[trigger] d[j].name
                != #[trigger] d[i].name by {
                assert(d[i] == list[i] && d[j] == list[j]);
            }
        }
        lemma_without_ok(d, name, globals);
        lemma_without_remote(d, name);
        lemma_without_remote(list, name);
        assert forall|i: int| 0 <= i < w.len() implies has_key(globals, #[trigger] w[i].name) by {
            let j = choose|j: int| 0 <= j < list.len() && #[trigger] w[i] == list[j];
        }
        assert forall|i: int, j: int| 0 <= j < i < w.len() implies #[trigger] w[j].name
            != #[trigger] w[i].name by {
            if i < rest.len() {
                assert(w[i] == rest[i] && w[j] == rest[j]);
            } else {
                assert(w[j] == rest[j]);
                let m = choose|m: int| 0 <= m < d.len() && #[trigger] rest[j] == d[m];
                assert(list[m] == d[m]);
                assert(w[i] == list[list.len() - 1]);
            }
        }
    }
}

/// The repos that refer to a remote are none exactly when no repo refers to it.
pub proof fn lemma_repos_referring(repos: Seq<(Seq<char>, RepoView)>, name: Seq<char>)
    ensures
        repos_referring(repos, name).len() == 0 <==> forall|k: int|
            0 <= k < repos.len() ==> !refers_to(#[trigger] repos[k].1, name),
    decreases repos.len(),
{
    if repos.len() > 0 {
        let d = repos.drop_last();
        lemma_repos_referring(d, name);
        if repos_referring(repos, name).len() == 0 {
            assert forall|k: int| 0 <= k < repos.len() implies !refers_to(#[trigger] repos[k].1, name) by {
                if k < d.len() {
                    assert(repos[k] == d[k]);
                }
            }
        } else {
            if !refers_to(repos.last().1, name) {
                let k = choose|k: int| 0 <= k < d.len() && refers_to(#[trigger] d[k].1, name);
                assert(repos[k] == d[k]);
            }
        }
    }
}

/// Every other repo of the configuration is left alone by replacing one.
pub proof fn lemma_with_repo_valid(c: ConfigView, name: Seq<char>, repo: RepoView)
    requires
        config_valid(c),
        has_key(c.repos, name),
        repo_valid(repo, c.remotes),
    ensures
        config_valid(with_repo(c, name, repo)),
{
    let n = with_repo(c, name, repo);
    let i = key_index(c.repos, name);
    assert forall|k: int| 0 <= k < n.repos.len() implies repo_valid(#[trigger] n.repos[k].1, n.remotes) by {
        if k != i {
            assert(n.repos[k] == c.repos[k]);
        }
    }
}

/// The configuration after a push remote was taken out of the repo at `idx`
/// agrees with the outcome of that removal.
proof fn lemma_remove_repo_remote_view(
    c: ConfigView,
    n: ConfigView,
    idx: int,
    repo_name: Seq<char>,
    remote: Seq<char>,
    found: bool,
    new_repo: RepoView,
)
    requires
        0 <= idx < c.repos.len(),
        c.repos[idx].0 == repo_name,
        key_index(c.repos, repo_name) == idx,
        value_for(c.repos, repo_name) == c.repos[idx].1,
        n.meta == c.meta,
        n.remotes == c.remotes,
        n.repos == c.repos.update(idx, (repo_name, new_repo)),
        new_repo.primary == c.repos[idx].1.primary,
        new_repo.remotes == without_remote(c.repos[idx].1.remotes, remote),
        found == lists_remote(c.repos[idx].1.remotes, remote),
    ensures
        n == with_repo(c, repo_name, new_repo),
        !found ==> n == c,
        config_valid(c) ==> config_valid(n),
{
    let oldv = c.repos[idx].1;
    assert(n.repos =~= with_repo(c, repo_name, new_repo).repos);
    if !found {
        lemma_without_absent(oldv.remotes, remote);
        assert(new_repo == oldv);
        assert(n.repos =~= c.repos);
    }
    if config_valid(c) {
        assert(repo_valid(c.repos[idx].1, c.remotes));
        lemma_without_ok(oldv.remotes, remote, c.remotes);
        lemma_with_repo_valid(c, repo_name, new_repo);
    }
}

impl RawConfig {
    /// The configuration of a new workspace: only the meta-repo's name.
    pub fn for_meta_repo(meta_repo: &str) -> (c: RawConfig)
        ensures
            c@ == (ConfigView {
                meta: MetaView { repo: Some(meta_repo@), primary: None, remotes: Seq::empty() },
                remotes: Seq::empty(),
                repos: Seq::empty(),
            }),
            config_valid(c@),
    {
        let mut c = RawConfig::default();
        c.meta.repo = Some(meta_repo.to_owned());
        c
    }
}

/// A workspace as it is seen in specifications.
pub struct WorkspaceView {
    pub root: Seq<char>,
    pub config: ConfigView,
}

/// A workspace: the directory that holds `.gitlas/`, and its configuration.
#[derive(Debug)]
pub struct Workspace {
    root: String,
    config: RawConfig,
}

impl View for Workspace {
    type V = WorkspaceView;

    closed spec fn view(&self) -> WorkspaceView {
        WorkspaceView { root: self.root@, config: self.config@ }
    }
}

/// Whether a primary remote and a push list refer to the remote.
fn names_remote(primary: &Option<RawRemote>, remotes: &Vec<RawRemote>, name: &String) -> (b: bool)
    ensures
        b == ((opt_ref(*primary) matches Some(p) && p.name == name@) || lists_remote(refs_view(remotes@), name@)),
{
    if let Some(p) = primary {
        if p.name == *name {
            assert(opt_ref(*primary) == Some(p@));
            return true;
        }
    }
    let mut i: usize = 0;
    while i < remotes.len()
        invariant
            i <= remotes@.len(),
            !(opt_ref(*primary) matches Some(p) && p.name == name@),
            forall|j: int| 0 <= j < i ==> #[trigger] refs_view(remotes@)[j].name != name@,
        decreases remotes@.len() - i,
    {
        assert(refs_view(remotes@)[i as int] == remotes@[i as int]@);
        if remotes[i].name == *name {
            assert(refs_view(remotes@)[i as int].name == name@);
            assert(lists_remote(refs_view(remotes@), name@));
            return true;
        }
        i = i + 1;
    }
    false
}

/// Splits off the entries that name the remote; tells whether there were any.
fn drop_named(list: Vec<RawRemote>, name: &String) -> (r: (Vec<RawRemote>, bool))
    ensures
        refs_view(r.0@) == without_remote(refs_view(list@), name@),
        r.1 == lists_remote(refs_view(list@), name@),
{
    let ghost orig = refs_view(list@);
    let mut rest = list;
    let mut kept: Vec<RawRemote> = Vec::new();
    let mut found = false;
    let ghost mut i: int = 0;
    while rest.len() > 0
        invariant
            0 <= i <= orig.len(),
            refs_view(rest@) == orig.skip(i),
            refs_view(kept@) == without_remote(orig.take(i), name@),
            found == lists_remote(orig.take(i), name@),
        decreases rest@.len(),
    {
        let ghost before = rest@;
        proof {
            assert(refs_view(before).len() == before.len());
            assert(orig.skip(i).len() == orig.len() - i);
        }
        let r = rest.remove(0);
        proof {
            assert(refs_view(before)[0] == r@);
            assert(orig.skip(i)[0] == orig[i]);
            assert forall|j: int| 0 <= j < rest@.len() implies #[trigger] refs_view(rest@)[j] == orig.skip(i + 1)[j] by {
                assert(rest@[j] == before[j + 1]);
                assert(refs_view(before)[j + 1] == orig.skip(i)[j + 1]);
            }
            assert(refs_view(rest@) =~= orig.skip(i + 1));
            assert(orig.take(i + 1).drop_last() =~= orig.take(i));
            assert(orig.take(i + 1).last() == orig[i]);
        }
        let ghost kept_before = kept@;
        if r.name == *name {
            found = true;
            proof {
                assert(orig.take(i + 1)[i].name == name@);
            }
        } else {
            kept.push(r);
            proof {
                assert(refs_view(kept@) =~= refs_view(kept_before).push(orig[i]));
                if found == false {
                    assert(!lists_remote(orig.take(i), name@));
                }
            }
        }
        proof {
            if !found {
                assert forall|j: int| 0 <= j < i + 1 implies #[trigger] orig.take(i + 1)[j].name != name@ by {
                    if j < i {
                        assert(orig.take(i + 1)[j] == orig.take(i)[j]);
                    }
                }
            } else if r.name@ != name@ {
                let j = choose|j: int| 0 <= j < i && #[trigger] orig.take(i)[j].name == name@;
                assert(orig.take(i + 1)[j] == orig.take(i)[j]);
            }
            i = i + 1;
        }
    }
    proof {
        assert(orig.take(i) =~= orig);
    }
    (kept, found)
}

impl Workspace {
    /// A workspace rooted at `root` with the configuration `config`, which
    /// is checked first: callers may rely on the configuration being valid.
    pub fn new(root: String, config: RawConfig) -> (res: Result<Workspace, ConfigError>)
        ensures
            match res {
                Ok(w) => w@ == (WorkspaceView { root: root@, config: config@ }),
                Err(e) => config_check(config@) == Some(e@),
            },
            res is Ok <==> config_valid(config@),
    {
        match validate_config(&config) {
            Ok(()) => Ok(Workspace { root, config }),
            Err(e) => Err(e),
        }
    }

    /// The configuration with every path and URL computed.
    pub fn config(&self) -> (r: ResolvedConfig)
        requires
            config_resolvable(self@.config),
        ensures
            r@ == resolved_config_of(self@.config, self@.root),
    {
        resolve_config(&self.config, self.root.as_str())
    }

    /// The workspace root.
    pub fn root(&self) -> (r: &String)
        ensures
            r@ == self@.root,
    {
        &self.root
    }

    /// The stored configuration.
    pub fn raw_config(&self) -> (r: &RawConfig)
        ensures
            r@ == self@.config,
    {
        &self.config
    }

    /// Checks the configuration before it is written out, and hands it back
    /// to be written: a broken configuration is never persisted.
    pub fn save(&self) -> (res: Result<&RawConfig, ConfigError>)
        ensures
            match res {
                Ok(c) => c@ == self@.config && config_valid(self@.config),
                Err(e) => config_check(self@.config) == Some(e@),
            },
            res is Ok <==> config_valid(self@.config),
    {
        match validate_config(&self.config) {
            Ok(()) => Ok(&self.config),
            Err(e) => Err(e),
        }
    }

    /// Declares a global remote, or replaces the URL and user of one.
    pub fn add_remote(&mut self, name: String, url: String, user: String)
        ensures
            final(self)@.root == old(self)@.root,
            final(self)@.config == added_remote(old(self)@.config, name@, url@, user@),
            config_valid(old(self)@.config) ==> config_valid(final(self)@.config),
    {
        let ghost c = self@.config;
        let ghost v = RemoteConfigView { url: url@, user: user@ };
        self.config.remotes.insert(name, RawRemoteConfig { url, user });
        proof {
            lemma_insert_unique(c.remotes, name@, v);
            let n = self@.config;
            if config_valid(c) {
                assert forall|k: int| 0 <= k < n.repos.len() implies repo_valid(#[trigger] n.repos[k].1, n.remotes) by {
                    assert(repo_valid(c.repos[k].1, c.remotes));
                }
            }
        }
    }

    /// Removes a global remote, refusing while the meta-repo or any tracked
    /// repo still refers to it.
    pub fn remove_remote(&mut self, name: &str) -> (res: Result<(), ConfigError>)
        ensures
            final(self)@.root == old(self)@.root,
            edit_matches(res, old(self)@.config, final(self)@.config, remove_remote_outcome(old(self)@.config, name@)),
            config_valid(old(self)@.config) ==> config_valid(final(self)@.config),
    {
        let ghost c = self@.config;
        let key = name.to_owned();
        let mut refs: Vec<String> = Vec::new();
        if names_remote(&self.config.meta.primary, &self.config.meta.remotes, &key) {
            let meta_name: String = match &self.config.meta.repo {
                Some(n) => n.clone(),
                None => DEFAULT_META_REPO.to_owned(),
            };
            refs.push(meta_name);
        }
        let ghost lead = refs@.map_values(|s: String| s@);
        proof {
            if meta_refers_to(c.meta, name@) {
                assert(lead =~= seq![meta_name_of(c)]);
            } else {
                assert(lead =~= Seq::<Seq<char>>::empty());
            }
        }
        let n = self.config.repo.len();
        let mut k: usize = 0;
        while k < n
            invariant
                k <= n == c.repos.len(),
                c == self@.config,
                key@ == name@,
                refs@.map_values(|s: String| s@) == lead + repos_referring(c.repos.take(k as int), name@),
            decreases n - k,
        {
            let repo = self.config.repo.value_at(k);
            proof {
                assert(c.repos.take(k + 1).drop_last() =~= c.repos.take(k as int));
                assert(c.repos.take(k + 1).last() == c.repos[k as int]);
            }
            if names_remote(&repo.primary, &repo.remotes, &key) {
                let ghost before = refs@;
                refs.push(self.config.repo.key_at(k).clone());
                assert(refs@.map_values(|s: String| s@) =~= before.map_values(|s: String| s@).push(c.repos[k as int].0));
                assert(refs@.map_values(|s: String| s@) =~= lead + repos_referring(c.repos.take(k + 1), name@));
            } else {
                assert(repos_referring(c.repos.take(k + 1), name@) == repos_referring(c.repos.take(k as int), name@));
            }
            k = k + 1;
        }
        assert(c.repos.take(n as int) =~= c.repos);
        assert(refs@.map_values(|s: String| s@) =~= remote_users(c, name@));
        if refs.len() > 0 {
            return Err(ConfigError::RemoteInUse { remote: key, repos: refs });
        }
        proof {
            lemma_repos_referring(c.repos, name@);
            assert(!meta_refers_to(c.meta, name@));
        }
        match self.config.remotes.remove(name) {
            Some(_) => {
                proof {
                    lemma_remove_unique(c.remotes, name@);
                    let nc = self@.config;
                    if config_valid(c) {
                        assert forall|i: int| 0 <= i < nc.meta.remotes.len() implies has_key(
                            nc.remotes,
                            #[trigger] nc.meta.remotes[i].name,
                        ) by {
                            assert(nc.meta.remotes[i].name != name@);
                        }
                        assert forall|j: int| 0 <= j < nc.repos.len() implies repo_valid(
                            #[trigger] nc.repos[j].1,
                            nc.remotes,
                        ) by {
                            let r = nc.repos[j].1;
                            assert(repo_valid(c.repos[j].1, c.remotes));
                            assert(!refers_to(c.repos[j].1, name@));
                            assert forall|i: int| 0 <= i < r.remotes.len() implies has_key(
                                nc.remotes,
                                #[trigger] r.remotes[i].name,
                            ) by {
                                assert(r.remotes[i].name != name@);
                            }
                        }
                    }
                }
                Ok(())
            },
            None => Err(ConfigError::RemoteNotFound { remote: key }),
        }
    }

    /// Tracks a repo; a repo that is already tracked is left as it is.
    pub fn add_repo(&mut self, name: String)
        ensures
            final(self)@.root == old(self)@.root,
            final(self)@.config == added_repo(old(self)@.config, name@),
            config_valid(old(self)@.config) ==> config_valid(final(self)@.config),
    {
        let ghost c = self@.config;
        if !self.config.repo.contains_key(name.as_str()) {
            let ghost key = name@;
            self.config.repo.insert(name, RawRepo::default());
            proof {
                let n = self@.config;
                assert(n.repos =~= c.repos.push((key, empty_repo())));
                if config_valid(c) {
                    assert forall|k: int| 0 <= k < n.repos.len() implies repo_valid(#[trigger] n.repos[k].1, n.remotes) by {
                        if k < c.repos.len() {
                            assert(n.repos[k] == c.repos[k]);
                        }
                    }
                }
            }
        }
    }

    /// Stops tracking a repo.
    pub fn remove_repo(&mut self, name: &str) -> (res: Result<(), ConfigError>)
        ensures
            final(self)@.root == old(self)@.root,
            edit_matches(res, old(self)@.config, final(self)@.config, remove_repo_outcome(old(self)@.config, name@)),
            config_valid(old(self)@.config) ==> config_valid(final(self)@.config),
    {
        let ghost c = self@.config;
        match self.config.repo.remove(name) {
            Some(_) => {
                proof {
                    let n = self@.config;
                    if config_valid(c) {
                        let j = key_index(c.repos, name@);
                        assert forall|k: int| 0 <= k < n.repos.len() implies repo_valid(#[trigger] n.repos[k].1, n.remotes) by {
                            if k < j {
                                assert(n.repos[k] == c.repos[k]);
                            } else {
                                assert(n.repos[k] == c.repos[k + 1]);
                            }
                        }
                    }
                }
                Ok(())
            },
            None => Err(ConfigError::RepoNotTracked { repo: name.to_owned() }),
        }
    }

    /// Adds a push remote to a repo, in place of any earlier reference to the
    /// same remote; the remote must be declared and the repo tracked.
    pub fn add_repo_remote(
        &mut self,
        repo_name: &str,
        remote_name: String,
        repo_override: Option<String>,
        user_override: Option<String>,
    ) -> (res: Result<(), ConfigError>)
        ensures
            final(self)@.root == old(self)@.root,
            edit_matches(
                res,
                old(self)@.config,
                final(self)@.config,
                add_repo_remote_outcome(
                    old(self)@.config,
                    repo_name@,
                    RawRemote { name: remote_name, repo: repo_override, user: user_override }@,
                ),
            ),
            config_valid(old(self)@.config) ==> config_valid(final(self)@.config),
    {
        let ghost c = self@.config;
        let ghost r = RawRemote { name: remote_name, repo: repo_override, user: user_override }@;
        if !self.config.remotes.contains_key(remote_name.as_str()) {
            return Err(ConfigError::UnknownRemote { remote: remote_name });
        }
        let idx = match self.config.repo.find(repo_name) {
            Some(i) => i,
            None => {
                return Err(ConfigError::RepoNotTracked { repo: repo_name.to_owned() });
            },
        };
        let old_repo = self.config.repo.replace_at(idx, RawRepo::default());
        let RawRepo { primary, remotes } = old_repo;
        let (mut kept, _found) = drop_named(remotes, &remote_name);
        let ghost kept_before = kept@;
        kept.push(RawRemote { name: remote_name, repo: repo_override, user: user_override });
        let new_repo = RawRepo { primary, remotes: kept };
        self.config.repo.replace_at(idx, new_repo);
        proof {
            let n = self@.config;
            let oldv = value_for(c.repos, repo_name@);
            lemma_key_index(c.repos, idx as int);
            assert(refs_view(kept@) =~= refs_view(kept_before).push(r));
            assert(n.repos =~= c.repos.update(idx as int, (repo_name@, RepoView {
                primary: oldv.primary,
                remotes: without_remote(oldv.remotes, r.name).push(r),
            })));
            if config_valid(c) {
                lemma_without_remote(oldv.remotes, r.name);
                assert(repo_valid(c.repos[idx as int].1, c.remotes));
                lemma_without_ok(oldv.remotes, r.name, c.remotes);
                let nl = without_remote(oldv.remotes, r.name).push(r);
                let w = without_remote(oldv.remotes, r.name);
                assert forall|i: int| 0 <= i < nl.len() implies has_key(c.remotes, #[trigger] nl[i].name) by {
                    if i < w.len() {
                        assert(nl[i] == w[i]);
                    }
                }
                assert forall|i: int, j: int| 0 <= j < i < nl.len() implies #[trigger] nl[j].name
                    != #[trigger] nl[i].name by {
                    if i < w.len() {
                        assert(nl[i] == w[i] && nl[j] == w[j]);
                    } else {
                        assert(nl[j] == w[j]);
                    }
                }
                lemma_with_repo_valid(c, repo_name@, RepoView { primary: oldv.primary, remotes: nl });
            }
        }
        Ok(())
    }

    /// Removes a push remote from a repo.
    pub fn remove_repo_remote(&mut self, repo_name: &str, remote_name: &str) -> (res: Result<(), ConfigError>)
        ensures
            final(self)@.root == old(self)@.root,
            edit_matches(
                res,
                old(self)@.config,
                final(self)@.config,
                remove_repo_remote_outcome(old(self)@.config, repo_name@, remote_name@),
            ),
            config_valid(old(self)@.config) ==> config_valid(final(self)@.config),
    {
        let ghost c = self@.config;
        let idx = match self.config.repo.find(repo_name) {
            Some(i) => i,
            None => {
                return Err(ConfigError::RepoNotTracked { repo: repo_name.to_owned() });
            },
        };
        let key = remote_name.to_owned();
        let old_repo = self.config.repo.replace_at(idx, RawRepo::default());
        let RawRepo { primary, remotes } = old_repo;
        let (kept, found) = drop_named(remotes, &key);
        let new_repo = RawRepo { primary, remotes: kept };
        let ghost new_view = new_repo@;
        self.config.repo.replace_at(idx, new_repo);
        proof {
            lemma_key_index(c.repos, idx as int);
            assert(self@.config.repos =~= c.repos.update(idx as int, (repo_name@, new_view)));
            lemma_remove_repo_remote_view(c, self@.config, idx as int, repo_name@, remote_name@, found, new_view);
        }
        if !found {
            return Err(ConfigError::RepoRemoteNotFound { repo: repo_name.to_owned(), remote: key });
        }
        Ok(())
    }

    /// Sets the remote a repo is pulled from; the remote must be declared and
    /// the repo tracked.
    pub fn set_repo_primary(
        &mut self,
        repo_name: &str,
        remote_name: String,
        repo_override: Option<String>,
        user_override: Option<String>,
    ) -> (res: Result<(), ConfigError>)
        ensures
            final(self)@.root == old(self)@.root,
            edit_matches(
                res,
                old(self)@.config,
                final(self)@.config,
                set_repo_primary_outcome(
                    old(self)@.config,
                    repo_name@,
                    RawRemote { name: remote_name, repo: repo_override, user: user_override }@,
                ),
            ),
            config_valid(old(self)@.config) ==> config_valid(final(self)@.config),
    {
        let ghost c = self@.config;
        let ghost r = RawRemote { name: remote_name, repo: repo_override, user: user_override }@;
        if !self.config.remotes.contains_key(remote_name.as_str()) {
            return Err(ConfigError::UnknownRemote { remote: remote_name });
        }
        let idx = match self.config.repo.find(repo_name) {
            Some(i) => i,
            None => {
                return Err(ConfigError::RepoNotTracked { repo: repo_name.to_owned() });
            },
        };
        let old_repo = self.config.repo.replace_at(idx, RawRepo::default());
        let RawRepo { primary: _, remotes } = old_repo;
        let new_repo = RawRepo {
            primary: Some(RawRemote { name: remote_name, repo: repo_override, user: user_override }),
            remotes,
        };
        self.config.repo.replace_at(idx, new_repo);
        proof {
            let n = self@.config;
            let oldv = value_for(c.repos, repo_name@);
            lemma_key_index(c.repos, idx as int);
            assert(n.repos =~= c.repos.update(idx as int, (repo_name@, RepoView { primary: Some(r), remotes: oldv.remotes })));
            if config_valid(c) {
                assert(repo_valid(c.repos[idx as int].1, c.remotes));
                lemma_with_repo_valid(c, repo_name@, RepoView { primary: Some(r), remotes: oldv.remotes });
            }
        }
        Ok(())
    }
}

} // verus!
