//! `git las repo status`: whether each tracked repo is clean or dirty.

use vstd::prelude::*;

use crate::report::{line, text3, LogLevel, LogLine, LogLineView};
use crate::text::{all_whitespace, is_blank};
use crate::types::raw::opt_str;
use crate::types::resolved::ResolvedConfig;

verus! {

/// The line for one repo: skipped when it is not checked out, else clean
/// when `git status --short` printed nothing but whitespace, dirty otherwise.
pub open spec fn status_line_of(name: Seq<char>, probe: Option<Seq<char>>) -> LogLineView {
    match probe {
        None => line(LogLevel::Skip, name + "  not cloned locally"@),
        Some(out) => line(
            LogLevel::Info,
            name + "  "@ + (if all_whitespace(out) {
                "clean"@
            } else {
                "dirty"@
            }),
        ),
    }
}

/// A repo whose status is asked: its name and the path of its checkout.
#[derive(Debug)]
pub struct StatusTarget {
    pub name: String,
    pub path: String,
}

/// What `git las repo status` does: report that nothing is tracked, or ask
/// each repo in order.
#[derive(Debug)]
pub enum StatusPlan {
    Nothing(LogLine),
    Repos(Vec<StatusTarget>),
}

/// The plan: each tracked repo in order; or, when no repo is tracked, only a
/// notice.
pub fn run(config: &ResolvedConfig) -> (plan: StatusPlan)
    ensures
        config@.repos.len() == 0 <==> plan is Nothing,
        plan matches StatusPlan::Nothing(l) ==> l@ == line(LogLevel::Info, "no repos tracked"@),
        plan matches StatusPlan::Repos(t) ==> {
            &&& t@.len() == config@.repos.len()
            &&& forall|k: int|
                0 <= k < t@.len() ==> #[trigger] t@[k].name@ == config@.repos[k].name && t@[k].path@
                    == config@.repos[k].path
        },
{
    if config.repos.len() == 0 {
        return StatusPlan::Nothing(LogLine { level: LogLevel::Info, text: "no repos tracked".to_owned() });
    }
    let mut targets: Vec<StatusTarget> = Vec::new();
    let mut k: usize = 0;
    while k < config.repos.len()
        invariant
            k <= config.repos@.len(),
            targets@.len() == k,
            forall|j: int|
                0 <= j < k ==> #[trigger] targets@[j].name@ == config@.repos[j].name && targets@[j].path@
                    == config@.repos[j].path,
        decreases config.repos@.len() - k,
    {
        let repo = &config.repos[k];
        assert(config@.repos[k as int] == repo@);
        targets.push(StatusTarget { name: repo.name.clone(), path: repo.path.clone() });
        k = k + 1;
    }
    StatusPlan::Repos(targets)
}

/// The line for one repo, given what `git status --short` printed in its
/// checkout, or nothing when it is not checked out.
pub fn status_line(name: &str, probe: &Option<String>) -> (l: LogLine)
    ensures
        l@ == status_line_of(name@, opt_str(*probe)),
{
    proof { reveal_strlit(""); }
    match probe {
        None => LogLine { level: LogLevel::Skip, text: text3(name, "  not cloned locally", "") },
        Some(out) => {
            let label = if is_blank(out.as_str()) {
                "clean"
            } else {
                "dirty"
            };
            LogLine { level: LogLevel::Info, text: text3(name, "  ", label) }
        },
    }
}

} // verus!
