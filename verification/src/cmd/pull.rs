//! `git las pull`: pulls every tracked repo from its primary remote (cloning
//! the ones that are not checked out), then the meta-repo.

use vstd::prelude::*;

use crate::report::{line, text5, LogLevel, LogLine, LogLineView};
use crate::types::resolved::{opt_resolved, ResolvedConfig, ResolvedRemote, ResolvedRemoteView};

verus! {

/// A repo to pull: where its checkout is, where it comes from, and whether
/// it is cloned when it is not checked out (the meta-repo never is).
#[derive(Debug)]
pub struct PullTarget {
    pub name: String,
    pub path: String,
    pub primary: Option<ResolvedRemote>,
    pub may_clone: bool,
}

/// A pull target as it is seen in specifications.
pub struct PullTargetView {
    pub name: Seq<char>,
    pub path: Seq<char>,
    pub primary: Option<ResolvedRemoteView>,
    pub may_clone: bool,
}

impl View for PullTarget {
    type V = PullTargetView;

    open spec fn view(&self) -> PullTargetView {
        PullTargetView { name: self.name@, path: self.path@, primary: opt_resolved(self.primary), may_clone: self.may_clone }
    }
}

/// What `git las pull` does: report that nothing is tracked, or handle the
/// targets in order.
#[derive(Debug)]
pub enum PullPlan {
    Nothing(LogLine),
    Targets(Vec<PullTarget>),
}

/// What happens to one target.
#[derive(Debug)]
pub enum PullAction {
    /// Nothing is pulled; the line says why.
    Skip(LogLine),
    /// The line is reported, then the repo is cloned from `url` into `dest`.
    Clone { notice: LogLine, url: String, dest: String },
    /// The remote is set to `url` in the checkout at `path`, then pulled.
    Pull { remote: String, url: String, path: String },
}

/// An action as it is seen in specifications.
pub enum PullActionView {
    Skip(LogLineView),
    Clone { notice: LogLineView, url: Seq<char>, dest: Seq<char> },
    Pull { remote: Seq<char>, url: Seq<char>, path: Seq<char> },
}

impl View for PullAction {
    type V = PullActionView;

    open spec fn view(&self) -> PullActionView {
        match self {
            PullAction::Skip(l) => PullActionView::Skip(l@),
            PullAction::Clone { notice, url, dest } => PullActionView::Clone { notice: notice@, url: url@, dest: dest@ },
            PullAction::Pull { remote, url, path } => PullActionView::Pull { remote: remote@, url: url@, path: path@ },
        }
    }
}

/// The plan: each tracked repo in order (cloned when missing), then the
/// meta-repo; or, when no repo is tracked, only a notice.
pub fn run(config: &ResolvedConfig) -> (plan: PullPlan)
    ensures
        config@.repos.len() == 0 <==> plan is Nothing,
        plan matches PullPlan::Nothing(l) ==> l@ == line(LogLevel::Info, "no repos tracked"@),
        plan matches PullPlan::Targets(t) ==> {
            &&& t@.len() == config@.repos.len() + 1
            &&& forall|k: int|
                0 <= k < config@.repos.len() ==> #[trigger] t@[k]@ == (PullTargetView {
                    name: config@.repos[k].name,
                    path: config@.repos[k].path,
                    primary: config@.repos[k].primary,
                    may_clone: true,
                })
            &&& t@[config@.repos.len() as int]@ == (PullTargetView {
                name: config@.meta.name,
                path: config@.meta.path,
                primary: config@.meta.primary,
                may_clone: false,
            })
        },
{
    if config.repos.len() == 0 {
        return PullPlan::Nothing(LogLine { level: LogLevel::Info, text: "no repos tracked".to_owned() });
    }
    let mut targets: Vec<PullTarget> = Vec::new();
    let mut k: usize = 0;
    while k < config.repos.len()
        invariant
            k <= config.repos@.len(),
            targets@.len() == k,
            forall|j: int|
                0 <= j < k ==> #[trigger] targets@[j]@ == (PullTargetView {
                    name: config@.repos[j].name,
                    path: config@.repos[j].path,
                    primary: config@.repos[j].primary,
                    may_clone: true,
                }),
        decreases config.repos@.len() - k,
    {
        let repo = &config.repos[k];
        assert(config@.repos[k as int] == repo@);
        targets.push(PullTarget {
            name: repo.name.clone(),
            path: repo.path.clone(),
            primary: clone_primary(&repo.primary),
            may_clone: true,
        });
        k = k + 1;
    }
    targets.push(PullTarget {
        name: config.meta.name.clone(),
        path: config.meta.path.clone(),
        primary: clone_primary(&config.meta.primary),
        may_clone: false,
    });
    PullPlan::Targets(targets)
}

/// A copy of an optional remote.
fn clone_primary(p: &Option<ResolvedRemote>) -> (r: Option<ResolvedRemote>)
    ensures
        opt_resolved(r) == opt_resolved(*p),
{
    match p {
        Some(x) => Some(ResolvedRemote { name: x.name.clone(), url: x.url.clone() }),
        None => None,
    }
}

/// The line for a repo without a primary remote.
pub open spec fn no_primary_line(name: Seq<char>) -> LogLineView {
    line(LogLevel::Skip, name + ": no primary remote set"@)
}

/// What pulling a repo that may be cloned does: nothing without a primary
/// remote; a clone from it when the repo is not checked out; a pull from it
/// otherwise.
pub open spec fn pull_or_clone_action(
    name: Seq<char>,
    primary: Option<ResolvedRemoteView>,
    path: Seq<char>,
    checked_out: bool,
) -> PullActionView {
    match primary {
        None => PullActionView::Skip(no_primary_line(name)),
        Some(p) => if !checked_out {
            PullActionView::Clone {
                notice: line(LogLevel::Info, name + ": cloning from "@ + p.name + "..."@),
                url: p.url,
                dest: path,
            }
        } else {
            PullActionView::Pull { remote: p.name, url: p.url, path }
        },
    }
}

/// What pulling the meta-repo does: nothing without a primary remote, a pull
/// from it otherwise.
pub open spec fn pull_from_primary_action(name: Seq<char>, primary: Option<ResolvedRemoteView>, path: Seq<char>) -> PullActionView {
    match primary {
        None => PullActionView::Skip(no_primary_line(name)),
        Some(p) => PullActionView::Pull { remote: p.name, url: p.url, path },
    }
}

/// Decides what happens to a repo that may be cloned.
pub fn pull_or_clone(name: &str, primary: &Option<ResolvedRemote>, path: &str, checked_out: bool) -> (a: PullAction)
    ensures
        a@ == pull_or_clone_action(name@, opt_resolved(*primary), path@, checked_out),
{
    proof { reveal_strlit(""); }
    match primary {
        None => PullAction::Skip(LogLine { level: LogLevel::Skip, text: text5(name, ": no primary remote set", "", "", "") }),
        Some(p) => if !checked_out {
            PullAction::Clone {
                notice: LogLine { level: LogLevel::Info, text: text5(name, ": cloning from ", p.name.as_str(), "...", "") },
                url: p.url.clone(),
                dest: path.to_owned(),
            }
        } else {
            PullAction::Pull { remote: p.name.clone(), url: p.url.clone(), path: path.to_owned() }
        },
    }
}

/// Decides what happens to the meta-repo.
pub fn pull_from_primary(name: &str, primary: &Option<ResolvedRemote>, path: &str) -> (a: PullAction)
    ensures
        a@ == pull_from_primary_action(name@, opt_resolved(*primary), path@),
{
    proof { reveal_strlit(""); }
    match primary {
        None => PullAction::Skip(LogLine { level: LogLevel::Skip, text: text5(name, ": no primary remote set", "", "", "") }),
        Some(p) => PullAction::Pull { remote: p.name.clone(), url: p.url.clone(), path: path.to_owned() },
    }
}

/// Decides what happens to a target.
pub fn step(target: &PullTarget, checked_out: bool) -> (a: PullAction)
    ensures
        a@ == (if target.may_clone {
            pull_or_clone_action(target@.name, target@.primary, target@.path, checked_out)
        } else {
            pull_from_primary_action(target@.name, target@.primary, target@.path)
        }),
{
    if target.may_clone {
        pull_or_clone(target.name.as_str(), &target.primary, target.path.as_str(), checked_out)
    } else {
        pull_from_primary(target.name.as_str(), &target.primary, target.path.as_str())
    }
}

/// The line that reports one pull.
pub open spec fn pull_line(name: Seq<char>, remote: Seq<char>, pulled: bool) -> LogLineView {
    if pulled {
        line(LogLevel::Success, name + " -> "@ + remote + ": pull"@)
    } else {
        line(LogLevel::Failure, name + " -> "@ + remote + ": pull failed"@)
    }
}

/// Reports the pull of `name` from `remote`: done, or failed.
pub fn pull_from_remote(name: &str, remote: &str, pulled: bool) -> (l: LogLine)
    ensures
        l@ == pull_line(name@, remote@, pulled),
{
    proof { reveal_strlit(""); }
    if pulled {
        LogLine { level: LogLevel::Success, text: text5(name, " -> ", remote, ": pull", "") }
    } else {
        LogLine { level: LogLevel::Failure, text: text5(name, " -> ", remote, ": pull failed", "") }
    }
}

} // verus!
