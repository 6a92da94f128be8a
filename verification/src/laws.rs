//! Properties that relate the edits of a workspace to one another and to
//! the resolution of its configuration.

use vstd::prelude::*;

use crate::cmd::pull::{pull_from_primary_action, pull_line, pull_or_clone_action, PullActionView};
use crate::cmd::push::push_line;
use crate::cmd::repo::status::status_line_of;
use crate::error::ErrorView;
use crate::report::{line, LogLevel};
use crate::resolve::{push_remotes_of, resolved_config_of, resolved_ref};
use crate::strmap::{
    has_key, key_index, keys_unique, lemma_insert_unique, lemma_key_index, table_insert, table_remove,
    value_for,
};
use crate::text::{char_is_whitespace, law_blank_iff_trimmed_empty, trimmed};
use crate::types::raw::{ConfigView, RemoteConfigView, RemoteRefView, RepoView};
use crate::types::resolved::{ResolvedRemoteView, ResolvedRepoView};
use crate::validate::{
    config_check, entry_bad, first_bad_from, lemma_first_bad, lemma_list_check, list_check, list_error, repo_check,
    repos_check_from, Globals,
};
use crate::workspace::{
    add_repo_remote_outcome, added_remote, added_repo, lemma_repos_referring, lemma_without_absent,
    lemma_without_remote, lists_remote, meta_refers_to, refers_to, remove_remote_outcome, remove_repo_outcome,
    remove_repo_remote_outcome, repos_referring, set_repo_primary_outcome, with_repo, with_remotes,
    without_remote,
};

verus! {

/// Declaring a remote that was not declared and that neither the meta-repo
/// nor any tracked repo refers to, and then removing it, gives back the
/// configuration as it was.
pub proof fn law_add_then_remove_remote(c: ConfigView, name: Seq<char>, url: Seq<char>, user: Seq<char>)
    requires
        keys_unique(c.remotes),
        !has_key(c.remotes, name),
        !meta_refers_to(c.meta, name),
        forall|k: int| 0 <= k < c.repos.len() ==> !refers_to(#[trigger] c.repos[k].1, name),
    ensures
        remove_remote_outcome(added_remote(c, name, url, user), name) == Ok::<ConfigView, ErrorView>(c),
{
    let a = added_remote(c, name, url, user);
    lemma_repos_referring(c.repos, name);
    lemma_insert_unique(c.remotes, name, RemoteConfigView { url, user });
    lemma_key_index(a.remotes, c.remotes.len() as int);
    assert(table_remove(a.remotes, name) =~= c.remotes);
    assert(with_remotes(a, table_remove(a.remotes, name)) == c);
}

/// Declaring a remote twice keeps only what the second declaration says.
pub proof fn law_add_remote_twice(
    c: ConfigView,
    name: Seq<char>,
    url1: Seq<char>,
    user1: Seq<char>,
    url2: Seq<char>,
    user2: Seq<char>,
)
    requires
        keys_unique(c.remotes),
    ensures
        added_remote(added_remote(c, name, url1, user1), name, url2, user2) == added_remote(c, name, url2, user2),
{
    let v1 = RemoteConfigView { url: url1, user: user1 };
    let v2 = RemoteConfigView { url: url2, user: user2 };
    lemma_insert_unique(c.remotes, name, v1);
    let s1 = table_insert(c.remotes, name, v1);
    if has_key(c.remotes, name) {
        let j = key_index(c.remotes, name);
        lemma_key_index(c.remotes, j);
        lemma_key_index(s1, j);
        assert(table_insert(s1, name, v2) =~= table_insert(c.remotes, name, v2));
    } else {
        lemma_key_index(s1, c.remotes.len() as int);
        assert(table_insert(s1, name, v2) =~= table_insert(c.remotes, name, v2));
    }
}

/// Tracking a repo twice is the same as tracking it once.
pub proof fn law_add_repo_idempotent(c: ConfigView, name: Seq<char>)
    ensures
        added_repo(added_repo(c, name), name) == added_repo(c, name),
{
    if !has_key(c.repos, name) {
        let a = added_repo(c, name);
        assert(a.repos[c.repos.len() as int].0 == name);
    }
}

/// Tracking a repo that was not tracked and untracking it again gives back
/// the configuration as it was.
pub proof fn law_add_then_remove_repo(c: ConfigView, name: Seq<char>)
    requires
        keys_unique(c.repos),
        !has_key(c.repos, name),
    ensures
        remove_repo_outcome(added_repo(c, name), name) == Ok::<ConfigView, ErrorView>(c),
{
    let a = added_repo(c, name);
    lemma_insert_unique(c.repos, name, RepoView { primary: None, remotes: Seq::empty() });
    assert(a.repos == table_insert(c.repos, name, RepoView { primary: None, remotes: Seq::empty() }));
    lemma_key_index(a.repos, c.repos.len() as int);
    assert(table_remove(a.repos, name) =~= c.repos);
}

/// Adding a push remote to a repo and removing it again leaves the repo's
/// list without any reference to that remote; if the list had none before,
/// the configuration is as it was.
pub proof fn law_add_then_remove_repo_remote(c: ConfigView, repo_name: Seq<char>, r: RemoteRefView)
    requires
        keys_unique(c.repos),
        has_key(c.remotes, r.name),
        has_key(c.repos, repo_name),
    ensures
        add_repo_remote_outcome(c, repo_name, r) matches Ok(a) && remove_repo_remote_outcome(a, repo_name, r.name)
            == Ok::<ConfigView, ErrorView>(with_repo(
            c,
            repo_name,
            RepoView {
                primary: value_for(c.repos, repo_name).primary,
                remotes: without_remote(value_for(c.repos, repo_name).remotes, r.name),
            },
        )),
        !lists_remote(value_for(c.repos, repo_name).remotes, r.name) ==> remove_repo_remote_outcome(
            add_repo_remote_outcome(c, repo_name, r)->Ok_0,
            repo_name,
            r.name,
        ) == Ok::<ConfigView, ErrorView>(c),
{
    let i = key_index(c.repos, repo_name);
    let old = value_for(c.repos, repo_name);
    let w = without_remote(old.remotes, r.name);
    let a = add_repo_remote_outcome(c, repo_name, r)->Ok_0;
    lemma_key_index(c.repos, i);
    assert(a.repos[i].0 == repo_name);
    assert forall|x: int, y: int| 0 <= x < a.repos.len() && 0 <= y < a.repos.len() && x != y implies #[trigger] a.repos[x].0
        != #[trigger] a.repos[y].0 by {
        assert(a.repos[x].0 == c.repos[x].0 && a.repos[y].0 == c.repos[y].0);
    }
    lemma_key_index(a.repos, i);
    let nl = w.push(r);
    assert(nl[nl.len() - 1].name == r.name);
    assert(lists_remote(nl, r.name));
    lemma_without_remote(old.remotes, r.name);
    assert(nl.drop_last() =~= w);
    assert(nl.last() == r);
    assert(without_remote(nl, r.name) == without_remote(w, r.name));
    lemma_without_absent(w, r.name);
    let expected = with_repo(c, repo_name, RepoView { primary: old.primary, remotes: w });
    assert(with_repo(a, repo_name, RepoView { primary: old.primary, remotes: w }).repos =~= expected.repos);
    if !lists_remote(old.remotes, r.name) {
        lemma_without_absent(old.remotes, r.name);
        assert(expected.repos =~= c.repos);
    }
}

/// A repo that lists no push remote is pushed to every global remote, each
/// resolved as a reference without overrides would be.
pub proof fn law_fallback_push_remotes(globals: Globals, repo_name: Seq<char>)
    requires
        keys_unique(globals),
    ensures
        push_remotes_of(globals, Seq::empty(), repo_name) == Seq::new(
            globals.len(),
            |k: int| resolved_ref(globals, RemoteRefView { name: globals[k].0, repo: None, user: None }, repo_name),
        ),
{
    let lhs = push_remotes_of(globals, Seq::empty(), repo_name);
    let rhs = Seq::new(
        globals.len(),
        |k: int| resolved_ref(globals, RemoteRefView { name: globals[k].0, repo: None, user: None }, repo_name),
    );
    assert forall|k: int| 0 <= k < globals.len() implies lhs[k] == rhs[k] by {
        lemma_key_index(globals, k);
    }
    assert(lhs =~= rhs);
}

/// After the primary remote of a repo is set, the resolved repo is pulled
/// from that remote, at the URL its overrides give.
pub proof fn law_set_primary_then_resolve(c: ConfigView, root: Seq<char>, repo_name: Seq<char>, r: RemoteRefView)
    requires
        keys_unique(c.repos),
        set_repo_primary_outcome(c, repo_name, r) is Ok,
    ensures
        ({
            let a = set_repo_primary_outcome(c, repo_name, r)->Ok_0;
            let i = key_index(c.repos, repo_name);
            &&& 0 <= i < resolved_config_of(a, root).repos.len()
            &&& resolved_config_of(a, root).repos[i].name == repo_name
            &&& resolved_config_of(a, root).repos[i].primary == Some(resolved_ref(c.remotes, r, repo_name))
        }),
{
    let i = key_index(c.repos, repo_name);
    lemma_key_index(c.repos, i);
}

/// After a push remote is added to a repo, the resolved repo is pushed to
/// that remote last, at the URL its overrides give, and to no other entry
/// of that name.
pub proof fn law_add_repo_remote_then_resolve(c: ConfigView, root: Seq<char>, repo_name: Seq<char>, r: RemoteRefView)
    requires
        keys_unique(c.repos),
        add_repo_remote_outcome(c, repo_name, r) is Ok,
    ensures
        ({
            let a = add_repo_remote_outcome(c, repo_name, r)->Ok_0;
            let i = key_index(c.repos, repo_name);
            let pushed = resolved_config_of(a, root).repos[i].push_remotes;
            &&& 0 <= i < resolved_config_of(a, root).repos.len()
            &&& pushed.len() > 0
            &&& pushed.last() == resolved_ref(c.remotes, r, repo_name)
            &&& forall|j: int| 0 <= j < pushed.len() - 1 ==> #[trigger] pushed[j].name != r.name
        }),
{
    let i = key_index(c.repos, repo_name);
    lemma_key_index(c.repos, i);
    let old = value_for(c.repos, repo_name);
    let w = without_remote(old.remotes, r.name);
    lemma_without_remote(old.remotes, r.name);
    let a = add_repo_remote_outcome(c, repo_name, r)->Ok_0;
    let nl = w.push(r);
    assert(a.repos[i].1.remotes == nl);
    let pushed = resolved_config_of(a, root).repos[i].push_remotes;
    assert(pushed == push_remotes_of(a.remotes, nl, repo_name));
    assert forall|j: int| 0 <= j < pushed.len() - 1 implies #[trigger] pushed[j].name != r.name by {
        assert(pushed[j].name == nl[j].name);
        assert(nl[j] == w[j]);
    }
}


/// `q` is the reference `r` to the global remote `g`, as the clone URL
/// `<url>/<user>/<repo>.git` spells it: the user is the reference's override
/// or the remote's user, the repository the reference's override or
/// `repo_name`.
pub open spec fn clones_from(q: ResolvedRemoteView, g: RemoteConfigView, r: RemoteRefView, repo_name: Seq<char>) -> bool {
    let user = match r.user {
        Some(u) => u,
        None => g.user,
    };
    let repo = match r.repo {
        Some(x) => x,
        None => repo_name,
    };
    &&& q.name == r.name
    &&& q.url == g.url + "/"@ + user + "/"@ + repo + ".git"@
}

/// The remotes of a resolved repo, as its primary reference and push list
/// give them under the repo's own name: the primary resolved, or none; each
/// listed push remote resolved in order; every global remote, in order and
/// with no override, when none is listed.
pub open spec fn resolved_under(
    rr: ResolvedRepoView,
    globals: Globals,
    primary: Option<RemoteRefView>,
    remotes: Seq<RemoteRefView>,
    name: Seq<char>,
) -> bool {
    &&& rr.name == name
    &&& (primary is None ==> rr.primary is None)
    &&& (primary matches Some(p) ==> rr.primary matches Some(q) && clones_from(q, value_for(globals, p.name), p, name))
    &&& (remotes.len() > 0 ==> {
        &&& rr.push_remotes.len() == remotes.len()
        &&& forall|k: int|
            0 <= k < remotes.len() ==> clones_from(
                #[trigger] rr.push_remotes[k],
                value_for(globals, remotes[k].name),
                remotes[k],
                name,
            )
    })
    &&& (remotes.len() == 0 ==> {
        &&& rr.push_remotes.len() == globals.len()
        &&& forall|k: int|
            0 <= k < globals.len() ==> clones_from(
                #[trigger] rr.push_remotes[k],
                globals[k].1,
                RemoteRefView { name: globals[k].0, repo: None, user: None },
                name,
            )
    })
}

/// The meta-repo is resolved under its own name, the configured one or
/// `gitlas`: that name is its resolved name and the default repository name
/// of its primary remote and of each of its push remotes.
pub proof fn law_meta_resolved_under_its_name(c: ConfigView, root: Seq<char>)
    ensures
        resolved_under(
            resolved_config_of(c, root).meta,
            c.remotes,
            c.meta.primary,
            c.meta.remotes,
            match c.meta.repo {
                Some(n) => n,
                None => "gitlas"@,
            },
        ),
{
    reveal_strlit("gitlas");
}

/// Each tracked repo is resolved, in its place, under its own name.
pub proof fn law_repo_resolved_under_its_name(c: ConfigView, root: Seq<char>, k: int)
    requires
        0 <= k < c.repos.len(),
    ensures
        resolved_config_of(c, root).repos.len() == c.repos.len(),
        resolved_under(
            resolved_config_of(c, root).repos[k],
            c.remotes,
            c.repos[k].1.primary,
            c.repos[k].1.remotes,
            c.repos[k].0,
        ),
{
}


/// Dropping the entries that name a remote is filtering the list by name.
proof fn lemma_without_remote_filters(list: Seq<RemoteRefView>, name: Seq<char>)
    ensures
        without_remote(list, name) == list.filter(|r: RemoteRefView| r.name != name),
    decreases list.len(),
{
    reveal(Seq::filter);
    if list.len() > 0 {
        lemma_without_remote_filters(list.drop_last(), name);
    }
}

/// In a table with unique keys, taking out a key is filtering the entries
/// by key.
proof fn lemma_table_remove_filters<T>(s: Seq<(Seq<char>, T)>, k: Seq<char>)
    requires
        keys_unique(s),
    ensures
        table_remove(s, k) == s.filter(|e: (Seq<char>, T)| e.0 != k),
    decreases s.len(),
{
    reveal(Seq::filter);
    if s.len() > 0 {
        let d = s.drop_last();
        let n = s.len() - 1;
        assert(keys_unique(d)) by {
            assert forall|i: int, j: int| 0 <= i < d.len() && 0 <= j < d.len() && i != j implies #[trigger] d[i].0
                != #[trigger] d[j].0 by {
                assert(d[i] == s[i] && d[j] == s[j]);
            }
        }
        lemma_table_remove_filters(d, k);
        if s[n].0 == k {
            lemma_key_index(s, n);
            assert(s.remove(n) =~= d);
            assert(!has_key(d, k)) by {
                if has_key(d, k) {
                    let i = key_index(d, k);
                    assert(d[i] == s[i]);
                }
            }
        } else if has_key(s, k) {
            let j = key_index(s, k);
            lemma_key_index(s, j);
            assert(j != n);
            assert(d[j] == s[j]);
            assert(has_key(d, k));
            let jd = key_index(d, k);
            assert(d[jd] == s[jd]);
            lemma_key_index(s, jd);
            assert(s.remove(j) =~= d.remove(j).push(s[n]));
        } else {
            assert(!has_key(d, k)) by {
                if has_key(d, k) {
                    let i = key_index(d, k);
                    assert(d[i] == s[i]);
                }
            }
            assert(s =~= d.push(s[n]));
        }
    }
}

/// Untracking a repo succeeds exactly when it is tracked. Then the repo is
/// no longer tracked, every other repo stays tracked with its configuration
/// and in its order, and the meta-repo and the global remotes are untouched.
pub proof fn law_remove_repo_untracks_only_it(c: ConfigView, name: Seq<char>)
    requires
        keys_unique(c.repos),
    ensures
        remove_repo_outcome(c, name) is Ok <==> has_key(c.repos, name),
        remove_repo_outcome(c, name) matches Ok(d) ==> {
            &&& d.meta == c.meta
            &&& d.remotes == c.remotes
            &&& d.repos == c.repos.filter(|e: (Seq<char>, RepoView)| e.0 != name)
        },
{
    lemma_table_remove_filters(c.repos, name);
}

/// Removing a push remote from a repo succeeds exactly when the repo is
/// tracked and lists the remote. Then that repo's push list is the old one
/// with every entry naming the remote dropped and the others kept in order;
/// its primary remote, every other repo, the meta-repo and the global
/// remotes are untouched.
pub proof fn law_remove_repo_remote_filters(c: ConfigView, repo_name: Seq<char>, remote: Seq<char>)
    requires
        keys_unique(c.repos),
    ensures
        remove_repo_remote_outcome(c, repo_name, remote) is Ok <==> has_key(c.repos, repo_name) && exists|i: int|
            0 <= i < value_for(c.repos, repo_name).remotes.len() && #[trigger] value_for(
                c.repos,
                repo_name,
            ).remotes[i].name == remote,
        remove_repo_remote_outcome(c, repo_name, remote) matches Ok(d) ==> {
            &&& d.meta == c.meta
            &&& d.remotes == c.remotes
            &&& d.repos.len() == c.repos.len()
            &&& forall|k: int|
                0 <= k < c.repos.len() && c.repos[k].0 != repo_name ==> #[trigger] d.repos[k] == c.repos[k]
            &&& forall|k: int|
                0 <= k < c.repos.len() && c.repos[k].0 == repo_name ==> #[trigger] d.repos[k] == (
                repo_name,
                RepoView {
                    primary: c.repos[k].1.primary,
                    remotes: c.repos[k].1.remotes.filter(|r: RemoteRefView| r.name != remote),
                },
            )
        },
{
    if has_key(c.repos, repo_name) {
        let j = key_index(c.repos, repo_name);
        lemma_key_index(c.repos, j);
        lemma_without_remote_filters(c.repos[j].1.remotes, remote);
        assert forall|k: int| 0 <= k < c.repos.len() && c.repos[k].0 == repo_name implies k == j by {
            lemma_key_index(c.repos, k);
        }
    }
}


/// Every pull or clone fetches from the repo's primary remote, at the URL the
/// primary resolved to, into the repo's own path; a repo without a primary
/// remote is skipped. The meta-repo, which is never cloned, is pulled exactly
/// as a checked-out repo is.
pub proof fn law_pulls_fetch_from_the_primary(
    name: Seq<char>,
    primary: Option<ResolvedRemoteView>,
    path: Seq<char>,
    checked_out: bool,
)
    ensures
        pull_from_primary_action(name, primary, path) == pull_or_clone_action(name, primary, path, true),
        primary is None ==> pull_from_primary_action(name, primary, path) == PullActionView::Skip(
            line(LogLevel::Skip, name + ": no primary remote set"@),
        ),
        primary is None ==> pull_or_clone_action(name, primary, path, checked_out) is Skip,
        primary matches Some(p) ==> pull_from_primary_action(name, primary, path) == (PullActionView::Pull {
            remote: p.name,
            url: p.url,
            path,
        }),
        primary is Some && checked_out ==> pull_or_clone_action(name, primary, path, checked_out) == (
        PullActionView::Pull { remote: primary->Some_0.name, url: primary->Some_0.url, path }),
        primary is Some && !checked_out ==> (pull_or_clone_action(name, primary, path, checked_out) matches PullActionView::Clone { url, dest, .. } && url == primary->Some_0.url && dest == path),
{
}

/// A checked-out repo is reported clean exactly when what `git status
/// --short` printed trims to nothing, and dirty as soon as it printed any
/// character that is not whitespace.
pub proof fn law_status_clean_iff_output_trims_empty(name: Seq<char>, out: Seq<char>)
    ensures
        trimmed(out).len() == 0 ==> status_line_of(name, Some(out)) == line(LogLevel::Info, name + "  clean"@),
        trimmed(out).len() != 0 ==> status_line_of(name, Some(out)) == line(LogLevel::Info, name + "  dirty"@),
        (exists|i: int| 0 <= i < out.len() && !char_is_whitespace(#[trigger] out[i])) ==> status_line_of(
            name,
            Some(out),
        ) == line(LogLevel::Info, name + "  dirty"@),
{
    reveal_strlit("  ");
    reveal_strlit("clean");
    reveal_strlit("dirty");
    reveal_strlit("  clean");
    reveal_strlit("  dirty");
    law_blank_iff_trimmed_empty(out);
    assert(name + "  "@ + "clean"@ =~= name + "  clean"@);
    assert(name + "  "@ + "dirty"@ =~= name + "  dirty"@);
}


/// A primary reference and a push list name the remote.
pub open spec fn uses_remote(primary: Option<RemoteRefView>, remotes: Seq<RemoteRefView>, name: Seq<char>) -> bool {
    ||| primary matches Some(p) && p.name == name
    ||| exists|i: int| 0 <= i < remotes.len() && #[trigger] remotes[i].name == name
}

/// The repos that refer to a remote, in order, are the configuration's repos
/// filtered by use of the remote.
proof fn lemma_repos_referring_filters(repos: Seq<(Seq<char>, RepoView)>, name: Seq<char>)
    ensures
        repos_referring(repos, name) == repos.filter(
            |e: (Seq<char>, RepoView)| uses_remote(e.1.primary, e.1.remotes, name),
        ).map_values(|e: (Seq<char>, RepoView)| e.0),
    decreases repos.len(),
{
    reveal(Seq::filter);
    if repos.len() > 0 {
        let d = repos.drop_last();
        lemma_repos_referring_filters(d, name);
        let f = d.filter(|e: (Seq<char>, RepoView)| uses_remote(e.1.primary, e.1.remotes, name));
        assert(f.push(repos.last()).map_values(|e: (Seq<char>, RepoView)| e.0) =~= f.map_values(
            |e: (Seq<char>, RepoView)| e.0,
        ).push(repos.last().0));
    }
}

/// Removing a global remote is refused while anything still uses it, naming
/// the users: the meta-repo first (under its configured name, or `gitlas`),
/// then every tracked repo that uses it, in order. Otherwise it is refused
/// when the remote is not declared; else the remote alone is taken out of
/// the global remotes, the others keeping their order, and the meta-repo and
/// the repos are untouched.
pub proof fn law_remove_remote_refuses_while_used(c: ConfigView, name: Seq<char>)
    requires
        keys_unique(c.remotes),
    ensures
        ({
            let meta_name = match c.meta.repo {
                Some(n) => n,
                None => "gitlas"@,
            };
            let repos = c.repos.filter(
                |e: (Seq<char>, RepoView)| uses_remote(e.1.primary, e.1.remotes, name),
            ).map_values(|e: (Seq<char>, RepoView)| e.0);
            let users = if uses_remote(c.meta.primary, c.meta.remotes, name) {
                seq![meta_name] + repos
            } else {
                repos
            };
            &&& users.len() > 0 ==> remove_remote_outcome(c, name) == Err::<ConfigView, ErrorView>(
                ErrorView::RemoteInUse { remote: name, repos: users },
            )
            &&& users.len() == 0 && !has_key(c.remotes, name) ==> remove_remote_outcome(c, name) == Err::<
                ConfigView,
                ErrorView,
            >(ErrorView::RemoteNotFound { remote: name })
            &&& users.len() == 0 && has_key(c.remotes, name) ==> remove_remote_outcome(c, name) == Ok::<
                ConfigView,
                ErrorView,
            >(
                ConfigView {
                    meta: c.meta,
                    remotes: c.remotes.filter(|e: (Seq<char>, RemoteConfigView)| e.0 != name),
                    repos: c.repos,
                },
            )
        }),
{
    reveal_strlit("gitlas");
    lemma_repos_referring_filters(c.repos, name);
    lemma_table_remove_filters(c.remotes, name);
}

/// Declaring a remote stores its URL and user under its name: in place when
/// it was declared, last otherwise. Every other remote keeps its place and
/// value, and the meta-repo and the repos are untouched.
pub proof fn law_add_remote_stores_it(c: ConfigView, name: Seq<char>, url: Seq<char>, user: Seq<char>)
    requires
        keys_unique(c.remotes),
    ensures
        ({
            let a = added_remote(c, name, url, user);
            let v = RemoteConfigView { url, user };
            &&& a.meta == c.meta
            &&& a.repos == c.repos
            &&& has_key(a.remotes, name) && value_for(a.remotes, name) == v
            &&& forall|k: int| 0 <= k < c.remotes.len() && c.remotes[k].0 != name ==> #[trigger] a.remotes[k] == c.remotes[k]
            &&& forall|k: int| 0 <= k < c.remotes.len() && c.remotes[k].0 == name ==> #[trigger] a.remotes[k] == (name, v)
            &&& !has_key(c.remotes, name) ==> a.remotes == c.remotes.push((name, v))
            &&& has_key(c.remotes, name) ==> a.remotes.len() == c.remotes.len()
        }),
{
    let v = RemoteConfigView { url, user };
    lemma_insert_unique(c.remotes, name, v);
    if has_key(c.remotes, name) {
        let j = key_index(c.remotes, name);
        lemma_key_index(c.remotes, j);
        assert forall|k: int| 0 <= k < c.remotes.len() && c.remotes[k].0 == name implies k == j by {
            lemma_key_index(c.remotes, k);
        }
    }
}

/// Tracking a repo that is not tracked appends it with no primary remote and
/// no push remote; tracking one that is tracked changes nothing.
pub proof fn law_add_repo_appends_it(c: ConfigView, name: Seq<char>)
    ensures
        has_key(c.repos, name) ==> added_repo(c, name) == c,
        !has_key(c.repos, name) ==> added_repo(c, name) == (ConfigView {
            meta: c.meta,
            remotes: c.remotes,
            repos: c.repos.push((name, RepoView { primary: None, remotes: Seq::empty() })),
        }),
        has_key(added_repo(c, name).repos, name),
{
    if !has_key(c.repos, name) {
        assert(added_repo(c, name).repos[c.repos.len() as int].0 == name);
    }
}

/// Adding a push remote to a repo succeeds exactly when the remote is
/// declared and the repo tracked. Then that repo's push list is the old one
/// without the entries that name the remote, with the new reference last;
/// its primary remote, every other repo, the meta-repo and the global
/// remotes are untouched.
pub proof fn law_add_repo_remote_appends_it(c: ConfigView, repo_name: Seq<char>, r: RemoteRefView)
    requires
        keys_unique(c.repos),
    ensures
        add_repo_remote_outcome(c, repo_name, r) is Ok <==> has_key(c.remotes, r.name) && has_key(c.repos, repo_name),
        add_repo_remote_outcome(c, repo_name, r) matches Ok(d) ==> {
            &&& d.meta == c.meta
            &&& d.remotes == c.remotes
            &&& d.repos.len() == c.repos.len()
            &&& forall|k: int|
                0 <= k < c.repos.len() && c.repos[k].0 != repo_name ==> #[trigger] d.repos[k] == c.repos[k]
            &&& forall|k: int|
                0 <= k < c.repos.len() && c.repos[k].0 == repo_name ==> #[trigger] d.repos[k] == (
                repo_name,
                RepoView {
                    primary: c.repos[k].1.primary,
                    remotes: c.repos[k].1.remotes.filter(|x: RemoteRefView| x.name != r.name).push(r),
                },
            )
        },
{
    if has_key(c.repos, repo_name) {
        let j = key_index(c.repos, repo_name);
        lemma_key_index(c.repos, j);
        lemma_without_remote_filters(c.repos[j].1.remotes, r.name);
        assert forall|k: int| 0 <= k < c.repos.len() && c.repos[k].0 == repo_name implies k == j by {
            lemma_key_index(c.repos, k);
        }
    }
}

/// Setting the primary remote of a repo succeeds exactly when the remote is
/// declared and the repo tracked. Then that repo's primary is the new
/// reference and its push list is kept; every other repo, the meta-repo and
/// the global remotes are untouched.
pub proof fn law_set_repo_primary_replaces_it(c: ConfigView, repo_name: Seq<char>, r: RemoteRefView)
    requires
        keys_unique(c.repos),
    ensures
        set_repo_primary_outcome(c, repo_name, r) is Ok <==> has_key(c.remotes, r.name) && has_key(c.repos, repo_name),
        set_repo_primary_outcome(c, repo_name, r) matches Ok(d) ==> {
            &&& d.meta == c.meta
            &&& d.remotes == c.remotes
            &&& d.repos.len() == c.repos.len()
            &&& forall|k: int|
                0 <= k < c.repos.len() && c.repos[k].0 != repo_name ==> #[trigger] d.repos[k] == c.repos[k]
            &&& forall|k: int|
                0 <= k < c.repos.len() && c.repos[k].0 == repo_name ==> #[trigger] d.repos[k] == (
                repo_name,
                RepoView { primary: Some(r), remotes: c.repos[k].1.remotes },
            )
        },
{
    if has_key(c.repos, repo_name) {
        let j = key_index(c.repos, repo_name);
        lemma_key_index(c.repos, j);
        assert forall|k: int| 0 <= k < c.repos.len() && c.repos[k].0 == repo_name implies k == j by {
            lemma_key_index(c.repos, k);
        }
    }
}


/// Every entry of the list names a declared remote, and no two entries name
/// the same remote.
pub open spec fn list_sound(list: Seq<RemoteRefView>, globals: Globals) -> bool {
    &&& forall|i: int| 0 <= i < list.len() ==> has_key(globals, #[trigger] list[i].name)
    &&& forall|i: int, j: int| 0 <= j < i < list.len() ==> #[trigger] list[j].name != #[trigger] list[i].name
}

/// The repo's primary remote, if set, is declared, and its push list is sound.
pub open spec fn repo_sound(repo: RepoView, globals: Globals) -> bool {
    &&& (repo.primary matches Some(p) ==> has_key(globals, p.name))
    &&& list_sound(repo.remotes, globals)
}

/// `e` reports the first bad entry of the list: the entries before it are
/// sound, and it names an undeclared remote (reported as missing) or, being
/// declared, a remote that an earlier entry names (reported as a duplicate).
pub open spec fn first_fault_in_list(e: ErrorView, context: Seq<char>, list: Seq<RemoteRefView>, globals: Globals) -> bool {
    exists|i: int|
        #![trigger list[i]]
        0 <= i < list.len() && list_sound(list.take(i), globals) && {
            ||| !has_key(globals, list[i].name) && e == (ErrorView::ListRemoteMissing { context, remote: list[i].name })
            ||| has_key(globals, list[i].name) && (exists|j: int| 0 <= j < i && #[trigger] list[j].name == list[i].name)
                && e == (ErrorView::DuplicateRemote { context, remote: list[i].name })
        }
}

/// `e` reports the first fault of the repo: its undeclared primary remote,
/// or else the first bad entry of its push list.
pub open spec fn first_fault_in_repo(e: ErrorView, name: Seq<char>, repo: RepoView, globals: Globals) -> bool {
    ||| repo.primary matches Some(p) && !has_key(globals, p.name) && e == (ErrorView::RepoPrimaryMissing {
        repo: name,
        remote: p.name,
    })
    ||| (repo.primary matches Some(p) ==> has_key(globals, p.name)) && first_fault_in_list(e, name, repo.remotes, globals)
}

/// What checking a list finds is its first bad entry, and nothing when it is sound.
proof fn lemma_list_check_first_fault(context: Seq<char>, list: Seq<RemoteRefView>, globals: Globals)
    ensures
        list_check(context, list, globals) is None <==> list_sound(list, globals),
        list_check(context, list, globals) matches Some(e) ==> first_fault_in_list(e, context, list, globals),
{
    lemma_list_check(context, list, globals);
    lemma_first_bad(list, globals, 0);
    let r = first_bad_from(list, globals, 0) as int;
    if r < list.len() {
        let t = list.take(r);
        assert forall|i: int| 0 <= i < t.len() implies has_key(globals, #[trigger] t[i].name) by {
            assert(!entry_bad(list, globals, i));
        }
        assert forall|i: int, j: int| 0 <= j < i < t.len() implies #[trigger] t[j].name != #[trigger] t[i].name by {
            assert(!entry_bad(list, globals, i));
            assert(t[i] == list[i] && t[j] == list[j]);
        }
        assert(list_sound(t, globals));
        let e = list_error(context, list, globals, r);
        assert(list[r] == list[r]);
    }
}

/// What checking the repos from `k` on finds is the first fault of the
/// first unsound repo among them.
proof fn lemma_repos_check_first_fault(repos: Seq<(Seq<char>, RepoView)>, globals: Globals, k: nat)
    requires
        k <= repos.len(),
    ensures
        repos_check_from(repos, globals, k) is None <==> forall|j: int|
            k <= j < repos.len() ==> repo_sound(#[trigger] repos[j].1, globals),
        repos_check_from(repos, globals, k) matches Some(e) ==> exists|j: int|
            #![trigger repos[j]]
            k <= j < repos.len() && (forall|i: int| k <= i < j ==> repo_sound(#[trigger] repos[i].1, globals))
                && first_fault_in_repo(e, repos[j].0, repos[j].1, globals),
    decreases repos.len() - k,
{
    if k < repos.len() {
        lemma_repos_check_first_fault(repos, globals, k + 1);
        lemma_list_check_first_fault(repos[k as int].0, repos[k as int].1.remotes, globals);
        let here = repo_check(repos[k as int].0, repos[k as int].1, globals);
        if here is None {
            assert(repo_sound(repos[k as int].1, globals));
            if repos_check_from(repos, globals, k) is None {
                assert forall|j: int| k <= j < repos.len() implies repo_sound(#[trigger] repos[j].1, globals) by {
                    if j > k {
                    }
                }
            } else {
                let e = repos_check_from(repos, globals, k)->Some_0;
                let j = choose|j: int|
                    #![trigger repos[j]]
                    k + 1 <= j < repos.len() && (forall|i: int| k + 1 <= i < j ==> repo_sound(#[trigger] repos[i].1, globals))
                        && first_fault_in_repo(e, repos[j].0, repos[j].1, globals);
                assert forall|i: int| k <= i < j implies repo_sound(#[trigger] repos[i].1, globals) by {
                    if i > k {
                    }
                }
                assert(repos[j] == repos[j]);
            }
        } else {
            assert(!repo_sound(repos[k as int].1, globals));
            let e = here->Some_0;
            assert(first_fault_in_repo(e, repos[k as int].0, repos[k as int].1, globals));
            assert(repos[k as int] == repos[k as int]);
        }
    }
}

/// Validation accepts exactly the configurations that refer only to
/// declared remotes and name no push remote twice in a list. A refusal
/// reports the first fault: the meta-repo's primary remote, then its push
/// list, then the repos in order, each with its primary remote before its
/// push list, and in a list the first bad entry.
pub proof fn law_validation_reports_the_first_fault(c: ConfigView)
    ensures
        config_check(c) is None <==> {
            &&& (c.meta.primary matches Some(p) ==> has_key(c.remotes, p.name))
            &&& list_sound(c.meta.remotes, c.remotes)
            &&& forall|k: int| 0 <= k < c.repos.len() ==> repo_sound(#[trigger] c.repos[k].1, c.remotes)
        },
        config_check(c) matches Some(e) ==> {
            ||| c.meta.primary matches Some(p) && !has_key(c.remotes, p.name) && e == (ErrorView::MetaPrimaryMissing {
                remote: p.name,
            })
            ||| (c.meta.primary matches Some(p) ==> has_key(c.remotes, p.name)) && first_fault_in_list(
                e,
                "meta"@,
                c.meta.remotes,
                c.remotes,
            )
            ||| (c.meta.primary matches Some(p) ==> has_key(c.remotes, p.name)) && list_sound(c.meta.remotes, c.remotes)
                && exists|j: int|
                #![trigger c.repos[j]]
                0 <= j < c.repos.len() && (forall|k: int| 0 <= k < j ==> repo_sound(#[trigger] c.repos[k].1, c.remotes))
                    && first_fault_in_repo(e, c.repos[j].0, c.repos[j].1, c.remotes)
        },
{
    lemma_list_check_first_fault("meta"@, c.meta.remotes, c.remotes);
    lemma_repos_check_first_fault(c.repos, c.remotes, 0);
}


/// A push or a pull is reported as a success exactly when it went through;
/// the line names the repo and the remote, and says which it was and, when
/// it did not go through, that it failed.
pub proof fn law_transfer_lines_tell_the_outcome(name: Seq<char>, remote: Seq<char>, done: bool)
    ensures
        push_line(name, remote, done).level == (if done { LogLevel::Success } else { LogLevel::Failure }),
        pull_line(name, remote, done).level == (if done { LogLevel::Success } else { LogLevel::Failure }),
        push_line(name, remote, done).text == name + " -> "@ + remote + (if done { ": push"@ } else { ": push failed"@ }),
        pull_line(name, remote, done).text == name + " -> "@ + remote + (if done { ": pull"@ } else { ": pull failed"@ }),
{
}

} // verus!
