//! The configuration with every remote turned into a URL and every repo
//! into a path, as the commands consume it.

use vstd::prelude::*;

verus! {

/// A resolved remote as it is seen in specifications.
pub struct ResolvedRemoteView {
    pub name: Seq<char>,
    pub url: Seq<char>,
}

/// A remote of a repo with its full clone URL.
#[derive(Debug)]
pub struct ResolvedRemote {
    pub name: String,
    pub url: String,
}

impl View for ResolvedRemote {
    type V = ResolvedRemoteView;

    open spec fn view(&self) -> ResolvedRemoteView {
        ResolvedRemoteView { name: self.name@, url: self.url@ }
    }
}

/// The view of an optional resolved remote.
pub open spec fn opt_resolved(o: Option<ResolvedRemote>) -> Option<ResolvedRemoteView> {
    match o {
        Some(r) => Some(r@),
        None => None,
    }
}

/// The view of a list of resolved remotes.
pub open spec fn resolved_list(v: Seq<ResolvedRemote>) -> Seq<ResolvedRemoteView> {
    v.map_values(|r: ResolvedRemote| r@)
}

/// A resolved repo (or the meta-repo) as it is seen in specifications.
pub struct ResolvedRepoView {
    pub name: Seq<char>,
    pub path: Seq<char>,
    pub primary: Option<ResolvedRemoteView>,
    pub push_remotes: Seq<ResolvedRemoteView>,
}

/// The meta-repo with its local path and resolved remotes.
#[derive(Debug)]
pub struct ResolvedMeta {
    pub name: String,
    pub path: String,
    pub primary: Option<ResolvedRemote>,
    pub push_remotes: Vec<ResolvedRemote>,
}

impl View for ResolvedMeta {
    type V = ResolvedRepoView;

    open spec fn view(&self) -> ResolvedRepoView {
        ResolvedRepoView {
            name: self.name@,
            path: self.path@,
            primary: opt_resolved(self.primary),
            push_remotes: resolved_list(self.push_remotes@),
        }
    }
}

/// A tracked repo with its local path and resolved remotes.
#[derive(Debug)]
pub struct ResolvedRepo {
    pub name: String,
    pub path: String,
    pub primary: Option<ResolvedRemote>,
    pub push_remotes: Vec<ResolvedRemote>,
}

impl View for ResolvedRepo {
    type V = ResolvedRepoView;

    open spec fn view(&self) -> ResolvedRepoView {
        ResolvedRepoView {
            name: self.name@,
            path: self.path@,
            primary: opt_resolved(self.primary),
            push_remotes: resolved_list(self.push_remotes@),
        }
    }
}

/// A global remote as it is seen in specifications.
pub struct RemoteEntryView {
    pub name: Seq<char>,
    pub url: Seq<char>,
    pub user: Seq<char>,
}

/// A global remote, listed.
#[derive(Debug)]
pub struct ResolvedRemoteEntry {
    pub name: String,
    pub url: String,
    pub user: String,
}

impl View for ResolvedRemoteEntry {
    type V = RemoteEntryView;

    open spec fn view(&self) -> RemoteEntryView {
        RemoteEntryView { name: self.name@, url: self.url@, user: self.user@ }
    }
}

/// The resolved configuration as it is seen in specifications.
pub struct ResolvedConfigView {
    pub meta: ResolvedRepoView,
    pub repos: Seq<ResolvedRepoView>,
    pub remotes: Seq<RemoteEntryView>,
}

/// The resolved configuration.
#[derive(Debug)]
pub struct ResolvedConfig {
    pub meta: ResolvedMeta,
    pub repos: Vec<ResolvedRepo>,
    pub remotes: Vec<ResolvedRemoteEntry>,
}

impl View for ResolvedConfig {
    type V = ResolvedConfigView;

    open spec fn view(&self) -> ResolvedConfigView {
        ResolvedConfigView {
            meta: self.meta@,
            repos: self.repos@.map_values(|r: ResolvedRepo| r@),
            remotes: self.remotes@.map_values(|r: ResolvedRemoteEntry| r@),
        }
    }
}

} // verus!
