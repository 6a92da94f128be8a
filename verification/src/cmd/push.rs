//! `git las push`: pushes every tracked repo, then the meta-repo, to its
//! push remotes.

use vstd::prelude::*;

use crate::report::{line, text5, LogLevel, LogLine, LogLineView};
use crate::types::resolved::{resolved_list, ResolvedConfig, ResolvedRemote, ResolvedRemoteView};

verus! {

/// A repo to push: where its checkout is, where it goes, and whether it is
/// skipped when it is not checked out (the meta-repo never is).
#[derive(Debug)]
pub struct PushTarget {
    pub name: String,
    pub path: String,
    pub remotes: Vec<ResolvedRemote>,
    pub skip_if_missing: bool,
}

/// A push target as it is seen in specifications.
pub struct PushTargetView {
    pub name: Seq<char>,
    pub path: Seq<char>,
    pub remotes: Seq<ResolvedRemoteView>,
    pub skip_if_missing: bool,
}

impl View for PushTarget {
    type V = PushTargetView;

    open spec fn view(&self) -> PushTargetView {
        PushTargetView {
            name: self.name@,
            path: self.path@,
            remotes: resolved_list(self.remotes@),
            skip_if_missing: self.skip_if_missing,
        }
    }
}

/// What `git las push` does: push the targets in order, after a notice when
/// no repo is tracked.
#[derive(Debug)]
pub struct PushPlan {
    pub notice: Option<LogLine>,
    pub targets: Vec<PushTarget>,
}

/// The plan: each tracked repo in order, skipped when not checked out, then
/// the meta-repo, which is pushed in every case; when no repo is tracked, a
/// notice says so first.
pub fn run(config: &ResolvedConfig) -> (plan: PushPlan)
    ensures
        plan.notice is Some <==> config@.repos.len() == 0,
        plan.notice matches Some(l) ==> l@ == line(LogLevel::Info, "no repos tracked"@),
        plan.targets@.len() == config@.repos.len() + 1,
        forall|k: int|
            0 <= k < config@.repos.len() ==> #[trigger] plan.targets@[k]@ == (PushTargetView {
                name: config@.repos[k].name,
                path: config@.repos[k].path,
                remotes: config@.repos[k].push_remotes,
                skip_if_missing: true,
            }),
        plan.targets@[config@.repos.len() as int]@ == (PushTargetView {
            name: config@.meta.name,
            path: config@.meta.path,
            remotes: config@.meta.push_remotes,
            skip_if_missing: false,
        }),
{
    let notice = if config.repos.len() == 0 {
        Some(LogLine { level: LogLevel::Info, text: "no repos tracked".to_owned() })
    } else {
        None
    };
    let mut targets: Vec<PushTarget> = Vec::new();
    let mut k: usize = 0;
    while k < config.repos.len()
        invariant
            k <= config.repos@.len(),
            targets@.len() == k,
            forall|j: int|
                0 <= j < k ==> #[trigger] targets@[j]@ == (PushTargetView {
                    name: config@.repos[j].name,
                    path: config@.repos[j].path,
                    remotes: config@.repos[j].push_remotes,
                    skip_if_missing: true,
                }),
        decreases config.repos@.len() - k,
    {
        let repo = &config.repos[k];
        assert(config@.repos[k as int] == repo@);
        targets.push(PushTarget {
            name: repo.name.clone(),
            path: repo.path.clone(),
            remotes: clone_remotes(&repo.push_remotes),
            skip_if_missing: true,
        });
        k = k + 1;
    }
    targets.push(PushTarget {
        name: config.meta.name.clone(),
        path: config.meta.path.clone(),
        remotes: clone_remotes(&config.meta.push_remotes),
        skip_if_missing: false,
    });
    PushPlan { notice, targets }
}

/// A copy of the list of remotes.
pub fn clone_remotes(remotes: &Vec<ResolvedRemote>) -> (r: Vec<ResolvedRemote>)
    ensures
        resolved_list(r@) == resolved_list(remotes@),
{
    let mut r: Vec<ResolvedRemote> = Vec::new();
    let mut k: usize = 0;
    while k < remotes.len()
        invariant
            k <= remotes@.len(),
            resolved_list(r@) =~= resolved_list(remotes@).take(k as int),
        decreases remotes@.len() - k,
    {
        let ghost before = r@;
        r.push(ResolvedRemote { name: remotes[k].name.clone(), url: remotes[k].url.clone() });
        assert(resolved_list(r@) =~= resolved_list(before).push(remotes@[k as int]@));
        k = k + 1;
    }
    assert(resolved_list(remotes@).take(remotes@.len() as int) =~= resolved_list(remotes@));
    r
}

/// Whether a target is skipped: a repo that must be checked out and is not.
pub fn skips(target: &PushTarget, checked_out: bool) -> (b: bool)
    ensures
        b == (target.skip_if_missing && !checked_out),
{
    target.skip_if_missing && !checked_out
}

/// The line for a skipped repo.
pub fn skip_line(name: &str) -> (l: LogLine)
    ensures
        l@ == line(LogLevel::Skip, name@ + ": not cloned locally"@),
{
    proof { reveal_strlit(""); }
    LogLine { level: LogLevel::Skip, text: text5(name, ": not cloned locally", "", "", "") }
}

/// The line that reports one push.
pub open spec fn push_line(name: Seq<char>, remote: Seq<char>, pushed: bool) -> LogLineView {
    if pushed {
        line(LogLevel::Success, name + " -> "@ + remote + ": push"@)
    } else {
        line(LogLevel::Failure, name + " -> "@ + remote + ": push failed"@)
    }
}

/// Reports the push of `name` to `remote`: done, or failed.
pub fn push_remotes(name: &str, remote: &ResolvedRemote, pushed: bool) -> (l: LogLine)
    ensures
        l@ == push_line(name@, remote.name@, pushed),
{
    proof { reveal_strlit(""); }
    if pushed {
        LogLine { level: LogLevel::Success, text: text5(name, " -> ", remote.name.as_str(), ": push", "") }
    } else {
        LogLine { level: LogLevel::Failure, text: text5(name, " -> ", remote.name.as_str(), ": push failed", "") }
    }
}

} // verus!
