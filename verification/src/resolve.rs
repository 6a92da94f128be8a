//! Turns the stored configuration into paths and clone URLs.

use vstd::prelude::*;

use crate::constants::{DEFAULT_META_REPO, GITLAS_DIR};
use crate::strmap::{has_key, value_for, StrMap};
use crate::text::{join_path, path_join};
use crate::types::raw::{
    ConfigView, RawConfig, RawRemote, RawRemoteConfig, RemoteConfigView, RemoteRefView, opt_ref,
    refs_view,
};
use crate::types::resolved::{
    RemoteEntryView, ResolvedConfig, ResolvedConfigView, ResolvedMeta, ResolvedRemote,
    ResolvedRemoteEntry, ResolvedRemoteView, ResolvedRepo, ResolvedRepoView, opt_resolved,
    resolved_list,
};
use crate::validate::{config_valid, repo_valid, Globals};

verus! {

/// The clone URL `<base>/<user>/<repo>.git`.
pub open spec fn git_url(base: Seq<char>, user: Seq<char>, repo: Seq<char>) -> Seq<char> {
    base + "/"@ + user + "/"@ + repo + ".git"@
}

/// The URL of a reference to a global remote: its overrides win over the
/// remote's user and over the default repository name.
pub open spec fn url_of(global: RemoteConfigView, raw: RemoteRefView, default_repo_name: Seq<char>) -> Seq<char> {
    let user = match raw.user {
        Some(u) => u,
        None => global.user,
    };
    let repo = match raw.repo {
        Some(r) => r,
        None => default_repo_name,
    };
    git_url(global.url, user, repo)
}

/// A reference resolved against the global remotes.
pub open spec fn resolved_ref(globals: Globals, raw: RemoteRefView, repo_name: Seq<char>) -> ResolvedRemoteView {
    ResolvedRemoteView { name: raw.name, url: url_of(value_for(globals, raw.name), raw, repo_name) }
}

/// The primary remote resolved against the global remotes.
pub open spec fn primary_of(globals: Globals, primary: Option<RemoteRefView>, repo_name: Seq<char>) -> Option<ResolvedRemoteView> {
    match primary {
        Some(raw) => Some(resolved_ref(globals, raw, repo_name)),
        None => None,
    }
}

/// Every global remote, as the push remote of a repo that lists none.
pub open spec fn all_globals_for(globals: Globals, repo_name: Seq<char>) -> Seq<ResolvedRemoteView> {
    Seq::new(
        globals.len(),
        |k: int| ResolvedRemoteView { name: globals[k].0, url: git_url(globals[k].1.url, globals[k].1.user, repo_name) },
    )
}

/// The push remotes: those listed, resolved; all global remotes when none is listed.
pub open spec fn push_remotes_of(globals: Globals, remotes: Seq<RemoteRefView>, repo_name: Seq<char>) -> Seq<ResolvedRemoteView> {
    if remotes.len() > 0 {
        Seq::new(remotes.len(), |k: int| resolved_ref(globals, remotes[k], repo_name))
    } else {
        all_globals_for(globals, repo_name)
    }
}

/// Every remote that the list names is declared.
pub open spec fn refs_declared(list: Seq<RemoteRefView>, globals: Globals) -> bool {
    forall|i: int| 0 <= i < list.len() ==> has_key(globals, #[trigger] list[i].name)
}

/// The primary remote, if set, is declared.
pub open spec fn primary_declared(p: Option<RemoteRefView>, globals: Globals) -> bool {
    p matches Some(r) ==> has_key(globals, r.name)
}

/// Every remote that the configuration refers to is declared, so that it
/// can be resolved.
pub open spec fn config_resolvable(c: ConfigView) -> bool {
    &&& primary_declared(c.meta.primary, c.remotes)
    &&& refs_declared(c.meta.remotes, c.remotes)
    &&& forall|k: int| 0 <= k < c.repos.len() ==> {
        &&& primary_declared(#[trigger] c.repos[k].1.primary, c.remotes)
        &&& refs_declared(c.repos[k].1.remotes, c.remotes)
    }
}

/// The meta-repo's name: the configured one, or `gitlas`.
pub open spec fn meta_name_of(c: ConfigView) -> Seq<char> {
    match c.meta.repo {
        Some(n) => n,
        None => DEFAULT_META_REPO@,
    }
}

/// The whole configuration resolved under the workspace root.
pub open spec fn resolved_config_of(c: ConfigView, root: Seq<char>) -> ResolvedConfigView {
    let meta_name = meta_name_of(c);
    ResolvedConfigView {
        meta: ResolvedRepoView {
            name: meta_name,
            path: path_join(root, GITLAS_DIR@),
            primary: primary_of(c.remotes, c.meta.primary, meta_name),
            push_remotes: push_remotes_of(c.remotes, c.meta.remotes, meta_name),
        },
        repos: Seq::new(
            c.repos.len(),
            |k: int| ResolvedRepoView {
                name: c.repos[k].0,
                path: path_join(root, c.repos[k].0),
                primary: primary_of(c.remotes, c.repos[k].1.primary, c.repos[k].0),
                push_remotes: push_remotes_of(c.remotes, c.repos[k].1.remotes, c.repos[k].0),
            },
        ),
        remotes: Seq::new(
            c.remotes.len(),
            |k: int| RemoteEntryView { name: c.remotes[k].0, url: c.remotes[k].1.url, user: c.remotes[k].1.user },
        ),
    }
}

/// A valid configuration can be resolved.
pub proof fn lemma_valid_resolvable(c: ConfigView)
    requires
        config_valid(c),
    ensures
        config_resolvable(c),
{
    assert forall|k: int| 0 <= k < c.repos.len() implies {
        &&& primary_declared(#[trigger] c.repos[k].1.primary, c.remotes)
        &&& refs_declared(c.repos[k].1.remotes, c.remotes)
    } by {
        assert(repo_valid(c.repos[k].1, c.remotes));
    }
}

/// Builds `<base>/<user>/<repo>.git`.
fn build_git_url(base: &str, user: &str, repo: &str) -> (r: String)
    ensures
        r@ == git_url(base@, user@, repo@),
{
    let mut r = base.to_owned();
    r.append("/");
    r.append(user);
    r.append("/");
    r.append(repo);
    r.append(".git");
    r
}

/// The URL of `raw` on `global`: `<url>/<user>/<repo>.git`, where the
/// reference's own user and repository name win over the remote's user and
/// over `default_repo_name`.
pub fn resolve_url(global: &RawRemoteConfig, raw: &RawRemote, default_repo_name: &str) -> (r: String)
    ensures
        r@ == url_of(global@, raw@, default_repo_name@),
{
    let user: &str = match &raw.user {
        Some(u) => u.as_str(),
        None => global.user.as_str(),
    };
    let repo: &str = match &raw.repo {
        Some(n) => n.as_str(),
        None => default_repo_name,
    };
    build_git_url(global.url.as_str(), user, repo)
}

/// Resolves one reference against the global remotes.
fn resolve_ref(global_remotes: &StrMap<RawRemoteConfig>, raw: &RawRemote, repo_name: &str) -> (r: ResolvedRemote)
    requires
        has_key(global_remotes@, raw.name@),
    ensures
        r@ == resolved_ref(global_remotes@, raw@, repo_name@),
{
    let global = global_remotes.get(raw.name.as_str()).unwrap();
    ResolvedRemote { name: raw.name.clone(), url: resolve_url(global, raw, repo_name) }
}

/// The primary remote with its URL, if one is set.
pub fn resolve_primary(
    global_remotes: &StrMap<RawRemoteConfig>,
    primary: &Option<RawRemote>,
    repo_name: &str,
) -> (r: Option<ResolvedRemote>)
    requires
        primary_declared(opt_ref(*primary), global_remotes@),
    ensures
        opt_resolved(r) == primary_of(global_remotes@, opt_ref(*primary), repo_name@),
{
    match primary {
        Some(raw) => Some(resolve_ref(global_remotes, raw, repo_name)),
        None => None,
    }
}

/// The push remotes with their URLs: the listed ones in order, or, when
/// none is listed, every global remote with its own user and `repo_name`.
pub fn resolve_push_remotes(
    global_remotes: &StrMap<RawRemoteConfig>,
    remotes: &Vec<RawRemote>,
    repo_name: &str,
) -> (r: Vec<ResolvedRemote>)
    requires
        refs_declared(refs_view(remotes@), global_remotes@),
    ensures
        resolved_list(r@) == push_remotes_of(global_remotes@, refs_view(remotes@), repo_name@),
{
    let ghost globals = global_remotes@;
    let ghost list = refs_view(remotes@);
    let mut out: Vec<ResolvedRemote> = Vec::new();
    if remotes.len() > 0 {
        let ghost target = Seq::new(list.len(), |k: int| resolved_ref(globals, list[k], repo_name@));
        let mut i: usize = 0;
        while i < remotes.len()
            invariant
                i <= remotes@.len(),
                globals == global_remotes@,
                list == refs_view(remotes@),
                refs_declared(list, globals),
                target == Seq::new(list.len(), |k: int| resolved_ref(globals, list[k], repo_name@)),
                resolved_list(out@) =~= target.take(i as int),
            decreases remotes@.len() - i,
        {
            assert(list[i as int] == remotes@[i as int]@);
            assert(has_key(globals, list[i as int].name));
            let rr = resolve_ref(global_remotes, &remotes[i], repo_name);
            assert(rr@ == target[i as int]);
            let ghost before = out@;
            out.push(rr);
            assert(resolved_list(out@) =~= resolved_list(before).push(rr@));
            assert(resolved_list(out@) =~= target.take(i + 1));
            i = i + 1;
        }
        assert(target.take(list.len() as int) =~= target);
    } else {
        let ghost target = all_globals_for(globals, repo_name@);
        let n = global_remotes.len();
        let mut i: usize = 0;
        while i < n
            invariant
                i <= n == globals.len(),
                globals == global_remotes@,
                target == all_globals_for(globals, repo_name@),
                resolved_list(out@) =~= target.take(i as int),
            decreases n - i,
        {
            let name = global_remotes.key_at(i);
            let global = global_remotes.value_at(i);
            let url = build_git_url(global.url.as_str(), global.user.as_str(), repo_name);
            let rr = ResolvedRemote { name: name.clone(), url };
            assert(rr@ == target[i as int]);
            let ghost before = out@;
            out.push(rr);
            assert(resolved_list(out@) =~= resolved_list(before).push(rr@));
            assert(resolved_list(out@) =~= target.take(i + 1));
            i = i + 1;
        }
        assert(target.take(n as int) =~= target);
    }
    out
}

/// The configuration with paths under `workspace_root` and every remote
/// resolved to a clone URL. The meta-repo is named by the configuration, or
/// `gitlas`; repos and remotes come in the order of the configuration.
pub fn resolve_config(config: &RawConfig, workspace_root: &str) -> (r: ResolvedConfig)
    requires
        config_resolvable(config@),
    ensures
        r@ == resolved_config_of(config@, workspace_root@),
{
    let ghost c = config@;
    let meta_name: &str = match &config.meta.repo {
        Some(n) => n.as_str(),
        None => DEFAULT_META_REPO,
    };
    let meta = ResolvedMeta {
        name: meta_name.to_owned(),
        path: join_path(workspace_root, GITLAS_DIR),
        primary: resolve_primary(&config.remotes, &config.meta.primary, meta_name),
        push_remotes: resolve_push_remotes(&config.remotes, &config.meta.remotes, meta_name),
    };

    let ghost target = resolved_config_of(c, workspace_root@);
    let mut repos: Vec<ResolvedRepo> = Vec::new();
    let n = config.repo.len();
    let mut k: usize = 0;
    while k < n
        invariant
            k <= n == c.repos.len(),
            c == config@,
            config_resolvable(c),
            target == resolved_config_of(c, workspace_root@),
            repos@.map_values(|r: ResolvedRepo| r@) =~= target.repos.take(k as int),
        decreases n - k,
    {
        let name = config.repo.key_at(k);
        let repo = config.repo.value_at(k);
        assert(c.repos[k as int].1 == repo@);
        assert(primary_declared(c.repos[k as int].1.primary, c.remotes));
        assert(refs_declared(c.repos[k as int].1.remotes, c.remotes));
        let resolved = ResolvedRepo {
            name: name.clone(),
            path: join_path(workspace_root, name.as_str()),
            primary: resolve_primary(&config.remotes, &repo.primary, name.as_str()),
            push_remotes: resolve_push_remotes(&config.remotes, &repo.remotes, name.as_str()),
        };
        assert(resolved@ == target.repos[k as int]);
        let ghost before = repos@;
        repos.push(resolved);
        assert(repos@.map_values(|r: ResolvedRepo| r@) =~= before.map_values(|r: ResolvedRepo| r@).push(resolved@));
        assert(repos@.map_values(|r: ResolvedRepo| r@) =~= target.repos.take(k + 1));
        k = k + 1;
    }
    assert(target.repos.take(n as int) =~= target.repos);

    let mut remotes: Vec<ResolvedRemoteEntry> = Vec::new();
    let m = config.remotes.len();
    let mut k: usize = 0;
    while k < m
        invariant
            k <= m == c.remotes.len(),
            c == config@,
            target == resolved_config_of(c, workspace_root@),
            remotes@.map_values(|r: ResolvedRemoteEntry| r@) =~= target.remotes.take(k as int),
        decreases m - k,
    {
        let name = config.remotes.key_at(k);
        let remote = config.remotes.value_at(k);
        let entry = ResolvedRemoteEntry { name: name.clone(), url: remote.url.clone(), user: remote.user.clone() };
        assert(entry@ == target.remotes[k as int]);
        let ghost before = remotes@;
        remotes.push(entry);
        assert(remotes@.map_values(|r: ResolvedRemoteEntry| r@) =~= before.map_values(|r: ResolvedRemoteEntry| r@).push(entry@));
        assert(remotes@.map_values(|r: ResolvedRemoteEntry| r@) =~= target.remotes.take(k + 1));
        k = k + 1;
    }
    assert(target.remotes.take(m as int) =~= target.remotes);

    ResolvedConfig { meta, repos, remotes }
}

} // verus!
