//! Checks that every remote the configuration refers to is declared, and that
//! no repo lists a push remote twice.

use vstd::prelude::*;

use crate::error::{ConfigError, ErrorView};
use crate::strmap::{has_key, StrMap};
use crate::types::raw::{
    ConfigView, RawConfig, RawRemote, RawRemoteConfig, RemoteConfigView, RemoteRefView, RepoView,
    refs_view,
};

verus! {

/// The global remotes as they are seen in specifications.
pub type Globals = Seq<(Seq<char>, RemoteConfigView)>;

/// The entry at `i` of a push-remote list names an undeclared remote, or one
/// that an earlier entry already names.
pub open spec fn entry_bad(list: Seq<RemoteRefView>, globals: Globals, i: int) -> bool {
    ||| !has_key(globals, list[i].name)
    ||| exists|j: int| 0 <= j < i && #[trigger] list[j].name == list[i].name
}

/// The first position at or after `i` whose entry is bad, or the length of
/// the list when there is none.
pub open spec fn first_bad_from(list: Seq<RemoteRefView>, globals: Globals, i: nat) -> nat
    decreases list.len() - i,
{
    if i >= list.len() {
        list.len()
    } else if entry_bad(list, globals, i as int) {
        i
    } else {
        first_bad_from(list, globals, i + 1)
    }
}

/// The refusal for the bad entry at `i`: an undeclared remote is reported
/// before a duplicate.
pub open spec fn list_error(context: Seq<char>, list: Seq<RemoteRefView>, globals: Globals, i: int) -> ErrorView {
    if !has_key(globals, list[i].name) {
        ErrorView::ListRemoteMissing { context, remote: list[i].name }
    } else {
        ErrorView::DuplicateRemote { context, remote: list[i].name }
    }
}

/// What checking a push-remote list finds: the refusal for its first bad
/// entry, if any.
pub open spec fn list_check(context: Seq<char>, list: Seq<RemoteRefView>, globals: Globals) -> Option<ErrorView> {
    let i = first_bad_from(list, globals, 0);
    if i < list.len() {
        Some(list_error(context, list, globals, i as int))
    } else {
        None
    }
}

/// Every entry of the list names a declared remote, and no two entries name
/// the same remote.
pub open spec fn remote_list_ok(list: Seq<RemoteRefView>, globals: Globals) -> bool {
    &&& forall|i: int| 0 <= i < list.len() ==> has_key(globals, #[trigger] list[i].name)
    &&& forall|i: int, j: int| 0 <= j < i < list.len() ==> #[trigger] list[j].name != #[trigger] list[i].name
}

/// A primary remote, if set, is declared.
pub open spec fn primary_ok(p: Option<RemoteRefView>, globals: Globals) -> bool {
    p matches Some(r) ==> has_key(globals, r.name)
}

/// What checking one repo finds.
pub open spec fn repo_check(name: Seq<char>, repo: RepoView, globals: Globals) -> Option<ErrorView> {
    if !primary_ok(repo.primary, globals) {
        Some(ErrorView::RepoPrimaryMissing { repo: name, remote: repo.primary->0.name })
    } else {
        list_check(name, repo.remotes, globals)
    }
}

/// What checking the repos from position `k` on finds: the first refusal.
pub open spec fn repos_check_from(repos: Seq<(Seq<char>, RepoView)>, globals: Globals, k: nat) -> Option<ErrorView>
    decreases repos.len() - k,
{
    if k >= repos.len() {
        None
    } else {
        match repo_check(repos[k as int].0, repos[k as int].1, globals) {
            Some(e) => Some(e),
            None => repos_check_from(repos, globals, k + 1),
        }
    }
}

/// What checking a whole configuration finds: the meta-repo first, then the
/// repos in order.
pub open spec fn config_check(c: ConfigView) -> Option<ErrorView> {
    if !primary_ok(c.meta.primary, c.remotes) {
        Some(ErrorView::MetaPrimaryMissing { remote: c.meta.primary->0.name })
    } else if list_check("meta"@, c.meta.remotes, c.remotes) is Some {
        list_check("meta"@, c.meta.remotes, c.remotes)
    } else {
        repos_check_from(c.repos, c.remotes, 0)
    }
}

/// A repo refers only to declared remotes, each push remote once.
pub open spec fn repo_valid(repo: RepoView, globals: Globals) -> bool {
    primary_ok(repo.primary, globals) && remote_list_ok(repo.remotes, globals)
}

/// The whole configuration refers only to declared remotes, and lists each
/// push remote of a repo once.
pub open spec fn config_valid(c: ConfigView) -> bool {
    &&& primary_ok(c.meta.primary, c.remotes)
    &&& remote_list_ok(c.meta.remotes, c.remotes)
    &&& forall|k: int| 0 <= k < c.repos.len() ==> repo_valid(#[trigger] c.repos[k].1, c.remotes)
}

/// `first_bad_from` finds the first bad entry.
pub proof fn lemma_first_bad(list: Seq<RemoteRefView>, globals: Globals, i: nat)
    requires
        i <= list.len(),
    ensures
        i <= first_bad_from(list, globals, i) <= list.len(),
        forall|j: int| i <= j < first_bad_from(list, globals, i) ==> !entry_bad(list, globals, j),
        first_bad_from(list, globals, i) < list.len() ==> entry_bad(
            list,
            globals,
            first_bad_from(list, globals, i) as int,
        ),
    decreases list.len() - i,
{
    if i < list.len() && !entry_bad(list, globals, i as int) {
        lemma_first_bad(list, globals, i + 1);
    }
}

/// A list passes its check exactly when it is well formed.
pub proof fn lemma_list_check(context: Seq<char>, list: Seq<RemoteRefView>, globals: Globals)
    ensures
        list_check(context, list, globals) is None <==> remote_list_ok(list, globals),
{
    lemma_first_bad(list, globals, 0);
    let r = first_bad_from(list, globals, 0);
    if r < list.len() {
        if !has_key(globals, list[r as int].name) {
        } else {
            let j = choose|j: int| 0 <= j < r && #[trigger] list[j].name == list[r as int].name;
            assert(list[j].name == list[r as int].name);
        }
    } else {
        assert forall|i: int, j: int| 0 <= j < i < list.len() implies #[trigger] list[j].name
            != #[trigger] list[i].name by {
            assert(!entry_bad(list, globals, i));
        }
        assert forall|i: int| 0 <= i < list.len() implies has_key(globals, #[trigger] list[i].name) by {
            assert(!entry_bad(list, globals, i));
        }
    }
}

/// The repos from `k` on pass their check exactly when each of them is valid.
pub proof fn lemma_repos_check(repos: Seq<(Seq<char>, RepoView)>, globals: Globals, k: nat)
    requires
        k <= repos.len(),
    ensures
        repos_check_from(repos, globals, k) is None <==> forall|j: int|
            k <= j < repos.len() ==> repo_valid(#[trigger] repos[j].1, globals),
    decreases repos.len() - k,
{
    if k < repos.len() {
        lemma_repos_check(repos, globals, k + 1);
        lemma_list_check(repos[k as int].0, repos[k as int].1.remotes, globals);
        if repos_check_from(repos, globals, k) is None {
            assert forall|j: int| k <= j < repos.len() implies repo_valid(#[trigger] repos[j].1, globals) by {
                if j > k {
                }
            }
        }
    }
}

/// A configuration passes its check exactly when it is valid.
pub proof fn lemma_config_check(c: ConfigView)
    ensures
        config_check(c) is None <==> config_valid(c),
{
    lemma_list_check("meta"@, c.meta.remotes, c.remotes);
    lemma_repos_check(c.repos, c.remotes, 0);
}

/// Checks a list of push remotes against the global remotes; `context`
/// names the repo (or the meta-repo) in the refusal.
pub fn validate_remote_list(
    context: &str,
    remotes: &Vec<RawRemote>,
    global_remotes: &StrMap<RawRemoteConfig>,
) -> (res: Result<(), ConfigError>)
    ensures
        match res {
            Ok(()) => list_check(context@, refs_view(remotes@), global_remotes@) is None,
            Err(e) => list_check(context@, refs_view(remotes@), global_remotes@) == Some(e@),
        },
        res is Ok <==> remote_list_ok(refs_view(remotes@), global_remotes@),
{
    let ghost list = refs_view(remotes@);
    let ghost globals = global_remotes@;
    proof {
        lemma_first_bad(list, globals, 0);
        lemma_list_check(context@, list, globals);
    }
    let mut i: usize = 0;
    while i < remotes.len()
        invariant
            i <= remotes@.len(),
            list == refs_view(remotes@),
            globals == global_remotes@,
            forall|k: int| 0 <= k < i ==> !entry_bad(list, globals, k),
            i <= first_bad_from(list, globals, 0) <= list.len(),
            forall|j: int| 0 <= j < first_bad_from(list, globals, 0) ==> !entry_bad(list, globals, j),
            first_bad_from(list, globals, 0) < list.len() ==> entry_bad(
                list,
                globals,
                first_bad_from(list, globals, 0) as int,
            ),
        decreases remotes@.len() - i,
    {
        let name = &remotes[i].name;
        assert(list[i as int].name == name@);
        if !global_remotes.contains_key(name.as_str()) {
            proof {
                assert(entry_bad(list, globals, i as int));
                assert(first_bad_from(list, globals, 0) == i);
            }
            return Err(ConfigError::ListRemoteMissing { context: context.to_owned(), remote: name.clone() });
        }
        let mut j: usize = 0;
        while j < i
            invariant
                j <= i < remotes@.len(),
                list == refs_view(remotes@),
                name@ == list[i as int].name,
                globals == global_remotes@,
                has_key(globals, list[i as int].name),
                forall|k: int| 0 <= k < i ==> !entry_bad(list, globals, k),
                i <= first_bad_from(list, globals, 0) <= list.len(),
                forall|m: int| 0 <= m < first_bad_from(list, globals, 0) ==> !entry_bad(list, globals, m),
                forall|m: int| 0 <= m < j ==> #[trigger] list[m].name != list[i as int].name,
            decreases i - j,
        {
            assert(list[j as int].name == remotes@[j as int].name@);
            if remotes[j].name == *name {
                proof {
                    assert(entry_bad(list, globals, i as int));
                    assert(first_bad_from(list, globals, 0) == i);
                }
                return Err(ConfigError::DuplicateRemote { context: context.to_owned(), remote: name.clone() });
            }
            j = j + 1;
        }
        proof {
            if entry_bad(list, globals, i as int) {
                let m = choose|m: int| 0 <= m < i && #[trigger] list[m].name == list[i as int].name;
                assert(list[m].name != list[i as int].name);
            }
        }
        i = i + 1;
    }
    Ok(())
}

/// Checks the whole configuration: the meta-repo first, then the repos in
/// order; the first refusal found is returned.
pub fn validate_config(config: &RawConfig) -> (res: Result<(), ConfigError>)
    ensures
        match res {
            Ok(()) => config_check(config@) is None,
            Err(e) => config_check(config@) == Some(e@),
        },
        res is Ok <==> config_valid(config@),
{
    proof { lemma_config_check(config@); }
    if let Some(primary) = &config.meta.primary {
        if !config.remotes.contains_key(primary.name.as_str()) {
            return Err(ConfigError::MetaPrimaryMissing { remote: primary.name.clone() });
        }
    }
    match validate_remote_list("meta", &config.meta.remotes, &config.remotes) {
        Ok(()) => {},
        Err(e) => {
            return Err(e);
        },
    }
    let ghost repos = config.repo@;
    let ghost globals = config.remotes@;
    let n = config.repo.len();
    let mut k: usize = 0;
    while k < n
        invariant
            k <= n == repos.len(),
            repos == config.repo@,
            globals == config.remotes@,
            config_check(config@) == repos_check_from(repos, globals, 0),
            repos_check_from(repos, globals, 0) == repos_check_from(repos, globals, k as nat),
        decreases n - k,
    {
        let name = config.repo.key_at(k);
        let repo = config.repo.value_at(k);
        assert(repos[k as int].1 == repo@);
        if let Some(primary) = &repo.primary {
            if !config.remotes.contains_key(primary.name.as_str()) {
                return Err(ConfigError::RepoPrimaryMissing { repo: name.clone(), remote: primary.name.clone() });
            }
        }
        match validate_remote_list(name.as_str(), &repo.remotes, &config.remotes) {
            Ok(()) => {},
            Err(e) => {
                return Err(e);
            },
        }
        k = k + 1;
    }
    Ok(())
}

} // verus!
