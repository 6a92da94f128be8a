//! `git las repo remote ls`: lists the remotes of the current repo.

use vstd::prelude::*;

use crate::error::{ConfigError, ErrorView};
use crate::report::{line, lines_view, text5, LogLevel, LogLine, LogLineView};
use crate::types::resolved::{ResolvedConfig, ResolvedRemoteView, ResolvedRepoView};

verus! {

/// The position of the first repo at or after `i` with that name, or the
/// number of repos when there is none.
pub open spec fn find_repo_from(repos: Seq<ResolvedRepoView>, name: Seq<char>, i: nat) -> nat
    decreases repos.len() - i,
{
    if i >= repos.len() {
        repos.len()
    } else if repos[i as int].name == name {
        i
    } else {
        find_repo_from(repos, name, i + 1)
    }
}

/// The search from `i` stops at the first repo, from `i` on, with that
/// name: every repo it passes has another name, and it finds none only when
/// none is left.
pub proof fn law_finds_the_first_repo_named(repos: Seq<ResolvedRepoView>, name: Seq<char>, i: nat)
    requires
        i <= repos.len(),
    ensures
        i <= find_repo_from(repos, name, i) <= repos.len(),
        forall|k: int| i <= k < find_repo_from(repos, name, i) ==> #[trigger] repos[k].name != name,
        find_repo_from(repos, name, i) < repos.len() ==> repos[find_repo_from(repos, name, i) as int].name == name,
    decreases repos.len() - i,
{
    if i < repos.len() && repos[i as int].name != name {
        law_finds_the_first_repo_named(repos, name, i + 1);
    }
}

/// The line for the primary remote.
pub open spec fn primary_line(p: Option<ResolvedRemoteView>) -> LogLineView {
    match p {
        Some(r) => line(LogLevel::Info, "primary: "@ + r.name + "  "@ + r.url),
        None => line(LogLevel::Info, "primary: (not set)"@),
    }
}

/// The line for one push remote.
pub open spec fn push_line(r: ResolvedRemoteView) -> LogLineView {
    line(LogLevel::Info, "  "@ + r.name + "  "@ + r.url)
}

/// The lines for a repo: its primary remote, then its push remotes.
pub open spec fn repo_remote_lines(repo: ResolvedRepoView) -> Seq<LogLineView> {
    seq![primary_line(repo.primary)] + if repo.push_remotes.len() == 0 {
        seq![line(LogLevel::Info, "remotes: (none, falls back to all global remotes)"@)]
    } else {
        repo.push_remotes.map_values(|r: ResolvedRemoteView| push_line(r))
    }
}

/// A repo's listing starts with its primary remote (name and URL, or that
/// none is set), then gives one line per push remote in order, each with its
/// name and URL, or, when it lists none, a line saying that all global
/// remotes are used.
pub proof fn law_repo_listing_shows_primary_then_push_remotes(repo: ResolvedRepoView)
    ensures
        ({
            let lines = repo_remote_lines(repo);
            &&& lines.len() == 1 + (if repo.push_remotes.len() == 0 { 1 } else { repo.push_remotes.len() })
            &&& repo.primary is None ==> lines[0] == line(LogLevel::Info, "primary: (not set)"@)
            &&& repo.primary matches Some(p) ==> lines[0] == line(LogLevel::Info, "primary: "@ + p.name + "  "@ + p.url)
            &&& repo.push_remotes.len() == 0 ==> lines[1] == line(
                LogLevel::Info,
                "remotes: (none, falls back to all global remotes)"@,
            )
            &&& forall|k: int|
                0 <= k < repo.push_remotes.len() ==> lines[k + 1] == line(
                    LogLevel::Info,
                    "  "@ + (#[trigger] repo.push_remotes[k]).name + "  "@ + repo.push_remotes[k].url,
                )
        }),
{
}

/// The position of the first repo named `name`, or the number of repos.
fn find_repo(config: &ResolvedConfig, name: &String) -> (i: usize)
    ensures
        i == find_repo_from(config@.repos, name@, 0),
        i <= config@.repos.len(),
{
    let mut i: usize = 0;
    while i < config.repos.len()
        invariant
            i <= config.repos@.len(),
            find_repo_from(config@.repos, name@, 0) == find_repo_from(config@.repos, name@, i as nat),
        decreases config.repos@.len() - i,
    {
        assert(config@.repos[i as int].name == config.repos@[i as int].name@);
        if config.repos[i].name == *name {
            return i;
        }
        i = i + 1;
    }
    i
}

/// Lists the primary and push remotes of the repo named `name`, refusing
/// when no repo has that name.
pub fn run(config: &ResolvedConfig, name: &str) -> (res: Result<Vec<LogLine>, ConfigError>)
    ensures
        ({
            let i = find_repo_from(config@.repos, name@, 0);
            match res {
                Ok(lines) => i < config@.repos.len() && lines_view(lines@) == repo_remote_lines(config@.repos[i as int]),
                Err(e) => i == config@.repos.len() && e@ == ErrorView::RepoNotTracked { repo: name@ },
            }
        }),
{
    let key = name.to_owned();
    let i = find_repo(config, &key);
    if i == config.repos.len() {
        return Err(ConfigError::RepoNotTracked { repo: key });
    }
    let repo = &config.repos[i];
    assert(config@.repos[i as int] == repo@);
    let ghost target = repo_remote_lines(repo@);
    let mut lines: Vec<LogLine> = Vec::new();
    proof { reveal_strlit(""); }
    match &repo.primary {
        Some(p) => {
            lines.push(LogLine { level: LogLevel::Info, text: text5("primary: ", p.name.as_str(), "  ", p.url.as_str(), "") });
        },
        None => {
            lines.push(LogLine { level: LogLevel::Info, text: "primary: (not set)".to_owned() });
        },
    }
    assert(lines_view(lines@) =~= seq![primary_line(repo@.primary)]);
    if repo.push_remotes.len() == 0 {
        let ghost before = lines@;
        lines.push(LogLine { level: LogLevel::Info, text: "remotes: (none, falls back to all global remotes)".to_owned() });
        assert(lines_view(lines@) =~= target);
    } else {
        let ghost rest = repo@.push_remotes.map_values(|r: ResolvedRemoteView| push_line(r));
        let mut k: usize = 0;
        while k < repo.push_remotes.len()
            invariant
                k <= repo.push_remotes@.len(),
                rest == repo@.push_remotes.map_values(|r: ResolvedRemoteView| push_line(r)),
                lines_view(lines@) =~= seq![primary_line(repo@.primary)] + rest.take(k as int),
            decreases repo.push_remotes@.len() - k,
        {
            let r = &repo.push_remotes[k];
            let l = LogLine { level: LogLevel::Info, text: text5("  ", r.name.as_str(), "  ", r.url.as_str(), "") };
            assert(repo@.push_remotes[k as int] == r@);
            proof { reveal_strlit(""); }
            assert(rest[k as int] == push_line(repo@.push_remotes[k as int]));
            assert(l@.text =~= rest[k as int].text);
            let ghost before = lines@;
            lines.push(l);
            assert(lines_view(lines@) =~= lines_view(before).push(l@));
            assert(rest.take(k + 1) =~= rest.take(k as int).push(rest[k as int]));
            k = k + 1;
        }
        assert(rest.take(repo.push_remotes@.len() as int) =~= rest);
    }
    Ok(lines)
}

} // verus!
