use git_las::cmd::init::meta_repo_name;
use git_las::cmd::pull::{pull_from_primary, pull_from_remote, pull_or_clone, step, PullAction, PullPlan};
use git_las::cmd::push::{push_remotes, skip_line, skips};
use git_las::cmd::remote::add::run as remote_add;
use git_las::cmd::remote::ls::run as remote_ls;
use git_las::cmd::remote::rm::run as remote_rm;
use git_las::cmd::repo::remote::add::run as repo_remote_add;
use git_las::cmd::repo::remote::ls::run as repo_remote_ls;
use git_las::cmd::repo::remote::rm::run as repo_remote_rm;
use git_las::cmd::repo::rm::run as repo_rm;
use git_las::cmd::repo::status::{run as repo_status, status_line, StatusPlan};
use git_las::cmd::{pull, push};
use git_las::report::{LogLevel, LogLine};
use git_las::strmap::StrMap;
use git_las::types::raw::{RawConfig, RawMeta, RawRemote, RawRemoteConfig, RawRepo};
use git_las::types::resolved::{ResolvedConfig, ResolvedRemote};
use git_las::workspace::Workspace;

fn bare(name: &str) -> RawRemote {
    RawRemote { name: name.to_string(), repo: None, user: None }
}

fn workspace() -> Workspace {
    let mut remotes = StrMap::new();
    remotes.insert("github".to_string(), RawRemoteConfig { url: "https://github.com".to_string(), user: "me".to_string() });
    remotes.insert("gitlab".to_string(), RawRemoteConfig { url: "https://gitlab.com".to_string(), user: "team".to_string() });
    let mut repo = StrMap::new();
    repo.insert("alpha".to_string(), RawRepo { primary: Some(bare("github")), remotes: vec![bare("gitlab")] });
    repo.insert("beta".to_string(), RawRepo::default());
    Workspace::new("/work".to_string(), RawConfig { meta: RawMeta::default(), remotes, repo }).unwrap()
}

fn empty_config() -> ResolvedConfig {
    Workspace::new("/w".to_string(), RawConfig::default()).unwrap().config()
}

fn texts(lines: &[LogLine]) -> Vec<(LogLevel, String)> {
    lines.iter().map(|l| (l.level, l.text.clone())).collect()
}

#[test]
fn remote_add_reports() {
    let mut w = workspace();
    let l = remote_add(&mut w, "gitea".to_string(), "https://g.io".to_string(), "me".to_string());
    assert_eq!(l.level, LogLevel::Success);
    assert_eq!(l.text, "added remote 'gitea'");
    assert_eq!(w.raw_config().remotes.len(), 3);
}

#[test]
fn remote_ls_lists_or_says_none() {
    let lines = remote_ls(&workspace().config());
    assert_eq!(texts(&lines), vec![
        (LogLevel::Info, "github  https://github.com  me".to_string()),
        (LogLevel::Info, "gitlab  https://gitlab.com  team".to_string()),
    ]);
    let lines = remote_ls(&empty_config());
    assert_eq!(texts(&lines), vec![(LogLevel::Info, "no remotes configured".to_string())]);
}

#[test]
fn remote_rm_reports_or_refuses() {
    let mut w = workspace();
    let e = remote_rm(&mut w, "gitlab").unwrap_err();
    assert_eq!(e.message(), "remote 'gitlab' is still referenced by repos: alpha");
    w.add_remote("x".to_string(), "u".to_string(), "v".to_string());
    let l = remote_rm(&mut w, "x").unwrap();
    assert_eq!(l.text, "removed remote 'x'");
}

#[test]
fn repo_rm_reports() {
    let mut w = workspace();
    assert_eq!(repo_rm(&mut w, "beta").unwrap().text, "untracked 'beta'");
    assert_eq!(repo_rm(&mut w, "beta").unwrap_err().message(), "repo 'beta' is not tracked");
}

#[test]
fn repo_remote_add_sets_primary_or_adds() {
    let mut w = workspace();
    let l = repo_remote_add(&mut w, "beta", "gitlab".to_string(), None, None, true).unwrap();
    assert_eq!(l.text, "beta: set primary to 'gitlab'");
    let l = repo_remote_add(&mut w, "beta", "github".to_string(), None, None, false).unwrap();
    assert_eq!(l.text, "beta: added remote 'github'");
    let r = w.config();
    assert_eq!(r.repos[1].primary.as_ref().unwrap().url, "https://gitlab.com/team/beta.git");
    assert_eq!(r.repos[1].push_remotes.len(), 1);
    let e = repo_remote_add(&mut w, "beta", "nowhere".to_string(), None, None, false).unwrap_err();
    assert_eq!(e.message(), "remote 'nowhere' not found - add it with `git las remote add`");
}

#[test]
fn repo_remote_rm_reports() {
    let mut w = workspace();
    assert_eq!(repo_remote_rm(&mut w, "alpha", "gitlab").unwrap().text, "alpha: removed remote 'gitlab'");
    assert_eq!(
        repo_remote_rm(&mut w, "alpha", "gitlab").unwrap_err().message(),
        "remote 'gitlab' not found on repo 'alpha'"
    );
}

#[test]
fn repo_remote_ls_lists_primary_and_push_remotes() {
    let c = workspace().config();
    let lines = repo_remote_ls(&c, "alpha").unwrap();
    assert_eq!(texts(&lines), vec![
        (LogLevel::Info, "primary: github  https://github.com/me/alpha.git".to_string()),
        (LogLevel::Info, "  gitlab  https://gitlab.com/team/alpha.git".to_string()),
    ]);
    let lines = repo_remote_ls(&c, "beta").unwrap();
    assert_eq!(texts(&lines)[0].1, "primary: (not set)");
    assert_eq!(lines.len(), 3);
    assert_eq!(repo_remote_ls(&c, "gamma").unwrap_err().message(), "repo 'gamma' is not tracked");
}

#[test]
fn repo_remote_ls_notes_the_fallback() {
    let mut raw = RawConfig::default();
    raw.repo.insert("solo".to_string(), RawRepo::default());
    let c = Workspace::new("/w".to_string(), raw).unwrap().config();
    let lines = repo_remote_ls(&c, "solo").unwrap();
    assert_eq!(texts(&lines), vec![
        (LogLevel::Info, "primary: (not set)".to_string()),
        (LogLevel::Info, "remotes: (none, falls back to all global remotes)".to_string()),
    ]);
}

#[test]
fn status_reports_clean_dirty_and_missing() {
    let c = workspace().config();
    let targets = match repo_status(&c) {
        StatusPlan::Repos(t) => t,
        StatusPlan::Nothing(_) => panic!("repos are tracked"),
    };
    assert_eq!(targets.len(), 2);
    assert_eq!((targets[0].name.as_str(), targets[0].path.as_str()), ("alpha", "/work/alpha"));
    assert_eq!((targets[1].name.as_str(), targets[1].path.as_str()), ("beta", "/work/beta"));
    let lines = vec![
        status_line("alpha", &Some(" \n\t".to_string())),
        status_line("beta", &Some(" M src/lib.rs\n".to_string())),
        status_line("alpha", &None),
        status_line("beta", &Some(String::new())),
    ];
    assert_eq!(texts(&lines), vec![
        (LogLevel::Info, "alpha  clean".to_string()),
        (LogLevel::Info, "beta  dirty".to_string()),
        (LogLevel::Skip, "alpha  not cloned locally".to_string()),
        (LogLevel::Info, "beta  clean".to_string()),
    ]);
    match repo_status(&empty_config()) {
        StatusPlan::Nothing(l) => assert_eq!((l.level, l.text.as_str()), (LogLevel::Info, "no repos tracked")),
        StatusPlan::Repos(_) => panic!("no repo is tracked"),
    }
}

#[test]
fn push_plan_lists_repos_then_meta() {
    let plan = push::run(&workspace().config());
    assert!(plan.notice.is_none());
    let t = plan.targets;
    assert_eq!(t.len(), 3);
    assert_eq!(t[0].name, "alpha");
    assert_eq!(t[0].path, "/work/alpha");
    assert!(t[0].skip_if_missing);
    assert_eq!(t[0].remotes.len(), 1);
    assert_eq!(t[1].remotes.len(), 2);
    assert_eq!(t[2].name, "gitlas");
    assert_eq!(t[2].path, "/work/.gitlas");
    assert!(!t[2].skip_if_missing);
    assert!(skips(&t[0], false));
    assert!(!skips(&t[0], true));
    assert!(!skips(&t[2], false));
}

#[test]
fn push_plan_keeps_the_meta_repo_when_no_repo_is_tracked() {
    let mut raw = RawConfig::default();
    raw.remotes.insert("github".to_string(), RawRemoteConfig { url: "https://github.com".to_string(), user: "me".to_string() });
    let c = Workspace::new("/w".to_string(), raw).unwrap().config();
    let plan = push::run(&c);
    let l = plan.notice.unwrap();
    assert_eq!((l.level, l.text.as_str()), (LogLevel::Info, "no repos tracked"));
    assert_eq!(plan.targets.len(), 1);
    let meta = &plan.targets[0];
    assert_eq!(meta.name, "gitlas");
    assert_eq!(meta.path, "/w/.gitlas");
    assert!(!meta.skip_if_missing);
    assert_eq!(meta.remotes.len(), 1);
    assert_eq!(meta.remotes[0].url, "https://github.com/me/gitlas.git");
}

#[test]
fn push_reports() {
    let r = ResolvedRemote { name: "github".to_string(), url: "u".to_string() };
    let l = push_remotes("alpha", &r, true);
    assert_eq!((l.level, l.text.as_str()), (LogLevel::Success, "alpha -> github: push"));
    let l = push_remotes("alpha", &r, false);
    assert_eq!((l.level, l.text.as_str()), (LogLevel::Failure, "alpha -> github: push failed"));
    let l = skip_line("beta");
    assert_eq!((l.level, l.text.as_str()), (LogLevel::Skip, "beta: not cloned locally"));
}

#[test]
fn pull_plan_and_actions() {
    let c = workspace().config();
    let targets = match pull::run(&c) {
        PullPlan::Targets(t) => t,
        PullPlan::Nothing(_) => panic!("repos are tracked"),
    };
    assert_eq!(targets.len(), 3);
    assert!(targets[0].may_clone && !targets[2].may_clone);
    match step(&targets[0], false) {
        PullAction::Clone { notice, url, dest } => {
            assert_eq!(notice.text, "alpha: cloning from github...");
            assert_eq!(notice.level, LogLevel::Info);
            assert_eq!(url, "https://github.com/me/alpha.git");
            assert_eq!(dest, "/work/alpha");
        },
        _ => panic!("a missing repo is cloned"),
    }
    match step(&targets[0], true) {
        PullAction::Pull { remote, url, path } => {
            assert_eq!(remote, "github");
            assert_eq!(url, "https://github.com/me/alpha.git");
            assert_eq!(path, "/work/alpha");
        },
        _ => panic!("a checkout is pulled"),
    }
    match step(&targets[1], true) {
        PullAction::Skip(l) => assert_eq!((l.level, l.text.as_str()), (LogLevel::Skip, "beta: no primary remote set")),
        _ => panic!("no primary remote"),
    }
    match step(&targets[2], false) {
        PullAction::Skip(l) => assert_eq!(l.text, "gitlas: no primary remote set"),
        _ => panic!("no primary remote"),
    }
    match pull::run(&empty_config()) {
        PullPlan::Nothing(l) => assert_eq!(l.text, "no repos tracked"),
        PullPlan::Targets(_) => panic!("no repo is tracked"),
    }
}

#[test]
fn meta_repo_is_pulled_never_cloned() {
    let p = Some(ResolvedRemote { name: "gitlab".to_string(), url: "u".to_string() });
    match pull_from_primary("gitlas", &p, "/w/.gitlas") {
        PullAction::Pull { remote, .. } => assert_eq!(remote, "gitlab"),
        _ => panic!("pulled"),
    }
    match pull_or_clone("x", &None, "/w/x", false) {
        PullAction::Skip(l) => assert_eq!(l.text, "x: no primary remote set"),
        _ => panic!("skipped"),
    }
}

#[test]
fn pull_reports() {
    let l = pull_from_remote("alpha", "github", true);
    assert_eq!((l.level, l.text.as_str()), (LogLevel::Success, "alpha -> github: pull"));
    let l = pull_from_remote("alpha", "github", false);
    assert_eq!((l.level, l.text.as_str()), (LogLevel::Failure, "alpha -> github: pull failed"));
}

#[test]
fn meta_repo_name_is_trimmed_or_defaulted() {
    assert_eq!(meta_repo_name("  hub \n"), "hub");
    assert_eq!(meta_repo_name("\n"), "gitlas");
    assert_eq!(meta_repo_name(""), "gitlas");
    assert_eq!(meta_repo_name("my repo\r\n"), "my repo");
}
