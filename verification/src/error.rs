//! Why a configuration or an edit of it is refused.

use vstd::prelude::*;

verus! {

/// A refusal as it is seen in specifications.
pub enum ErrorView {
    MetaPrimaryMissing { remote: Seq<char> },
    RepoPrimaryMissing { repo: Seq<char>, remote: Seq<char> },
    ListRemoteMissing { context: Seq<char>, remote: Seq<char> },
    DuplicateRemote { context: Seq<char>, remote: Seq<char> },
    RemoteInUse { remote: Seq<char>, repos: Seq<Seq<char>> },
    RemoteNotFound { remote: Seq<char> },
    RepoNotTracked { repo: Seq<char> },
    UnknownRemote { remote: Seq<char> },
    RepoRemoteNotFound { repo: Seq<char>, remote: Seq<char> },
}

/// Why a configuration, or an edit of it, is refused.
#[derive(Debug)]
pub enum ConfigError {
    /// The meta-repo's primary remote is not a global remote.
    MetaPrimaryMissing { remote: String },
    /// A repo's primary remote is not a global remote.
    RepoPrimaryMissing { repo: String, remote: String },
    /// A push remote of the meta-repo or of a repo is not a global remote.
    ListRemoteMissing { context: String, remote: String },
    /// A push remote is listed twice for the meta-repo or for a repo.
    DuplicateRemote { context: String, remote: String },
    /// A global remote that repos still reference cannot be removed.
    RemoteInUse { remote: String, repos: Vec<String> },
    /// There is no global remote of that name.
    RemoteNotFound { remote: String },
    /// There is no tracked repo of that name.
    RepoNotTracked { repo: String },
    /// A repo cannot refer to a global remote that does not exist.
    UnknownRemote { remote: String },
    /// The repo does not list that push remote.
    RepoRemoteNotFound { repo: String, remote: String },
}

/// The view of a list of names.
pub open spec fn names_view(v: Seq<String>) -> Seq<Seq<char>> {
    v.map_values(|s: String| s@)
}

impl View for ConfigError {
    type V = ErrorView;

    open spec fn view(&self) -> ErrorView {
        match self {
            ConfigError::MetaPrimaryMissing { remote } => ErrorView::MetaPrimaryMissing { remote: remote@ },
            ConfigError::RepoPrimaryMissing { repo, remote } => ErrorView::RepoPrimaryMissing {
                repo: repo@,
                remote: remote@,
            },
            ConfigError::ListRemoteMissing { context, remote } => ErrorView::ListRemoteMissing {
                context: context@,
                remote: remote@,
            },
            ConfigError::DuplicateRemote { context, remote } => ErrorView::DuplicateRemote {
                context: context@,
                remote: remote@,
            },
            ConfigError::RemoteInUse { remote, repos } => ErrorView::RemoteInUse {
                remote: remote@,
                repos: names_view(repos@),
            },
            ConfigError::RemoteNotFound { remote } => ErrorView::RemoteNotFound { remote: remote@ },
            ConfigError::RepoNotTracked { repo } => ErrorView::RepoNotTracked { repo: repo@ },
            ConfigError::UnknownRemote { remote } => ErrorView::UnknownRemote { remote: remote@ },
            ConfigError::RepoRemoteNotFound { repo, remote } => ErrorView::RepoRemoteNotFound {
                repo: repo@,
                remote: remote@,
            },
        }
    }
}

/// The names joined with `sep` between each two of them.
pub open spec fn join_names(names: Seq<Seq<char>>, sep: Seq<char>) -> Seq<char>
    decreases names.len(),
{
    if names.len() == 0 {
        Seq::empty()
    } else if names.len() == 1 {
        names[0]
    } else {
        join_names(names.drop_last(), sep) + sep + names.last()
    }
}

impl ErrorView {
    /// The text that explains the refusal.
    pub open spec fn message(self) -> Seq<char> {
        match self {
            ErrorView::MetaPrimaryMissing { remote } =>
                "meta: primary remote '"@ + remote + "' not found in [remotes]"@,
            ErrorView::RepoPrimaryMissing { repo, remote } =>
                "repo '"@ + repo + "': primary remote '"@ + remote + "' not found in [remotes]"@,
            ErrorView::ListRemoteMissing { context, remote } =>
                context + ": remote '"@ + remote + "' not found in [remotes]"@,
            ErrorView::DuplicateRemote { context, remote } =>
                context + ": duplicate remote '"@ + remote + "'"@,
            ErrorView::RemoteInUse { remote, repos } =>
                "remote '"@ + remote + "' is still referenced by repos: "@ + join_names(repos, ", "@),
            ErrorView::RemoteNotFound { remote } => "remote '"@ + remote + "' not found"@,
            ErrorView::RepoNotTracked { repo } => "repo '"@ + repo + "' is not tracked"@,
            ErrorView::UnknownRemote { remote } =>
                "remote '"@ + remote + "' not found - add it with `git las remote add`"@,
            ErrorView::RepoRemoteNotFound { repo, remote } =>
                "remote '"@ + remote + "' not found on repo '"@ + repo + "'"@,
        }
    }
}

/// Joins the names with `sep` between each two of them.
pub fn join(names: &Vec<String>, sep: &str) -> (r: String)
    ensures
        r@ == join_names(names_view(names@), sep@),
{
    let mut r = String::new();
    let ghost all = names_view(names@);
    let mut i: usize = 0;
    while i < names.len()
        invariant
            i <= names@.len(),
            all == names_view(names@),
            r@ == join_names(all.take(i as int), sep@),
        decreases names@.len() - i,
    {
        proof {
            assert(all.take(i + 1).drop_last() =~= all.take(i as int));
            assert(all.take(i + 1).last() == names@[i as int]@);
            if i == 0 {
                assert(all.take(1) =~= seq![names@[0]@]);
            }
        }
        if i != 0 {
            r.append(sep);
        }
        r.append(names[i].as_str());
        i = i + 1;
    }
    assert(all.take(names@.len() as int) =~= all);
    r
}

impl ConfigError {
    /// The text that explains the refusal.
    pub fn message(&self) -> (m: String)
        ensures
            m@ == self@.message(),
    {
        let mut m = String::new();
        match self {
            ConfigError::MetaPrimaryMissing { remote } => {
                m.append("meta: primary remote '");
                m.append(remote.as_str());
                m.append("' not found in [remotes]");
            },
            ConfigError::RepoPrimaryMissing { repo, remote } => {
                m.append("repo '");
                m.append(repo.as_str());
                m.append("': primary remote '");
                m.append(remote.as_str());
                m.append("' not found in [remotes]");
            },
            ConfigError::ListRemoteMissing { context, remote } => {
                m.append(context.as_str());
                m.append(": remote '");
                m.append(remote.as_str());
                m.append("' not found in [remotes]");
            },
            ConfigError::DuplicateRemote { context, remote } => {
                m.append(context.as_str());
                m.append(": duplicate remote '");
                m.append(remote.as_str());
                m.append("'");
            },
            ConfigError::RemoteInUse { remote, repos } => {
                m.append("remote '");
                m.append(remote.as_str());
                m.append("' is still referenced by repos: ");
                let joined = join(repos, ", ");
                m.append(joined.as_str());
            },
            ConfigError::RemoteNotFound { remote } => {
                m.append("remote '");
                m.append(remote.as_str());
                m.append("' not found");
            },
            ConfigError::RepoNotTracked { repo } => {
                m.append("repo '");
                m.append(repo.as_str());
                m.append("' is not tracked");
            },
            ConfigError::UnknownRemote { remote } => {
                m.append("remote '");
                m.append(remote.as_str());
                m.append("' not found - add it with `git las remote add`");
            },
            ConfigError::RepoRemoteNotFound { repo, remote } => {
                m.append("remote '");
                m.append(remote.as_str());
                m.append("' not found on repo '");
                m.append(repo.as_str());
                m.append("'");
            },
        }
        assert(m@ =~= self@.message());
        m
    }
}

} // verus!
