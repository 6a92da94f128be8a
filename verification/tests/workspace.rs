use git_las::error::ConfigError;
use git_las::strmap::StrMap;
use git_las::types::raw::{RawConfig, RawMeta, RawRemote, RawRemoteConfig, RawRepo};
use git_las::workspace::Workspace;

fn bare(name: &str) -> RawRemote {
    RawRemote { name: name.to_string(), repo: None, user: None }
}

fn workspace() -> Workspace {
    let mut remotes = StrMap::new();
    remotes.insert("github".to_string(), RawRemoteConfig { url: "https://github.com".to_string(), user: "me".to_string() });
    remotes.insert("gitlab".to_string(), RawRemoteConfig { url: "https://gitlab.com".to_string(), user: "team".to_string() });
    let mut repo = StrMap::new();
    repo.insert("alpha".to_string(), RawRepo { primary: Some(bare("github")), remotes: vec![bare("gitlab")] });
    repo.insert("beta".to_string(), RawRepo { primary: None, remotes: vec![bare("gitlab")] });
    Workspace::new("/work".to_string(), RawConfig { meta: RawMeta::default(), remotes, repo }).unwrap()
}

fn remote_names(w: &Workspace) -> Vec<String> {
    let c = w.raw_config();
    (0..c.remotes.len()).map(|i| c.remotes.key_at(i).clone()).collect()
}

fn repo_names(w: &Workspace) -> Vec<String> {
    let c = w.raw_config();
    (0..c.repo.len()).map(|i| c.repo.key_at(i).clone()).collect()
}

fn repo_remotes(w: &Workspace, name: &str) -> Vec<String> {
    w.raw_config().repo.get(name).unwrap().remotes.iter().map(|r| r.name.clone()).collect()
}

#[test]
fn new_refuses_an_invalid_config() {
    let mut c = RawConfig::default();
    c.meta.primary = Some(bare("github"));
    let e = Workspace::new("/w".to_string(), c).unwrap_err();
    assert_eq!(e.message(), "meta: primary remote 'github' not found in [remotes]");
}

#[test]
fn root_and_config_are_kept() {
    let w = workspace();
    assert_eq!(w.root(), "/work");
    assert_eq!(w.config().repos.len(), 2);
}

#[test]
fn add_then_remove_unused_remote_restores() {
    let mut w = workspace();
    let before = remote_names(&w);
    w.add_remote("gitea".to_string(), "https://gitea.io".to_string(), "me".to_string());
    assert_eq!(remote_names(&w), vec!["github", "gitlab", "gitea"]);
    w.remove_remote("gitea").unwrap();
    assert_eq!(remote_names(&w), before);
}

#[test]
fn adding_a_remote_twice_keeps_the_last() {
    let mut w = workspace();
    w.add_remote("github".to_string(), "https://ghe.example".to_string(), "corp".to_string());
    assert_eq!(remote_names(&w), vec!["github", "gitlab"]);
    let g = w.raw_config().remotes.get("github").unwrap();
    assert_eq!(g.url, "https://ghe.example");
    assert_eq!(g.user, "corp");
    assert!(w.save().is_ok());
}

#[test]
fn referenced_remote_cannot_be_removed() {
    let mut w = workspace();
    let e = w.remove_remote("gitlab").unwrap_err();
    assert!(matches!(e, ConfigError::RemoteInUse { .. }));
    assert_eq!(e.message(), "remote 'gitlab' is still referenced by repos: alpha, beta");
    assert_eq!(remote_names(&w), vec!["github", "gitlab"]);
    let e = w.remove_remote("github").unwrap_err();
    assert_eq!(e.message(), "remote 'github' is still referenced by repos: alpha");
}

#[test]
fn unknown_remote_cannot_be_removed() {
    let mut w = workspace();
    let e = w.remove_remote("nowhere").unwrap_err();
    assert!(matches!(e, ConfigError::RemoteNotFound { .. }));
    assert_eq!(e.message(), "remote 'nowhere' not found");
}

#[test]
fn remote_the_meta_repo_uses_cannot_be_removed() {
    let mut c = RawConfig::default();
    c.remotes.insert("github".to_string(), RawRemoteConfig { url: "u".to_string(), user: "x".to_string() });
    c.meta.primary = Some(bare("github"));
    let mut w = Workspace::new("/w".to_string(), c).unwrap();
    let e = w.remove_remote("github").unwrap_err();
    assert!(matches!(e, ConfigError::RemoteInUse { .. }));
    assert_eq!(e.message(), "remote 'github' is still referenced by repos: gitlas");
    assert_eq!(remote_names(&w), vec!["github"]);
    assert!(w.save().is_ok());
}

#[test]
fn named_meta_repo_is_listed_before_the_repos() {
    let mut remotes = StrMap::new();
    remotes.insert("github".to_string(), RawRemoteConfig { url: "https://github.com".to_string(), user: "me".to_string() });
    remotes.insert("gitlab".to_string(), RawRemoteConfig { url: "https://gitlab.com".to_string(), user: "team".to_string() });
    let mut repo = StrMap::new();
    repo.insert("alpha".to_string(), RawRepo { primary: None, remotes: vec![bare("gitlab")] });
    repo.insert("beta".to_string(), RawRepo { primary: Some(bare("gitlab")), remotes: vec![] });
    let meta = RawMeta { repo: Some("meta".to_string()), primary: None, remotes: vec![bare("gitlab")] };
    let mut w = Workspace::new("/work".to_string(), RawConfig { meta, remotes, repo }).unwrap();
    let e = w.remove_remote("gitlab").unwrap_err();
    assert_eq!(e.message(), "remote 'gitlab' is still referenced by repos: meta, alpha, beta");
    assert_eq!(remote_names(&w), vec!["github", "gitlab"]);
}

#[test]
fn add_repo_is_idempotent() {
    let mut w = workspace();
    w.add_repo("gamma".to_string());
    w.add_repo("gamma".to_string());
    w.add_repo("alpha".to_string());
    assert_eq!(repo_names(&w), vec!["alpha", "beta", "gamma"]);
    assert_eq!(repo_remotes(&w, "alpha"), vec!["gitlab"]);
    assert!(w.raw_config().repo.get("gamma").unwrap().primary.is_none());
}

#[test]
fn add_then_remove_repo_restores() {
    let mut w = workspace();
    w.add_repo("gamma".to_string());
    w.remove_repo("gamma").unwrap();
    assert_eq!(repo_names(&w), vec!["alpha", "beta"]);
}

#[test]
fn untracked_repo_cannot_be_removed() {
    let mut w = workspace();
    let e = w.remove_repo("gamma").unwrap_err();
    assert!(matches!(e, ConfigError::RepoNotTracked { .. }));
    assert_eq!(e.message(), "repo 'gamma' is not tracked");
}

#[test]
fn repo_remote_is_added_last_and_replaces() {
    let mut w = workspace();
    w.add_repo_remote("alpha", "github".to_string(), None, None).unwrap();
    assert_eq!(repo_remotes(&w, "alpha"), vec!["gitlab", "github"]);
    w.add_repo_remote("alpha", "gitlab".to_string(), Some("renamed".to_string()), None).unwrap();
    assert_eq!(repo_remotes(&w, "alpha"), vec!["github", "gitlab"]);
    let r = w.config();
    assert_eq!(r.repos[0].push_remotes[1].url, "https://gitlab.com/team/renamed.git");
    assert!(w.save().is_ok());
}

#[test]
fn repo_remote_needs_a_declared_remote_and_a_tracked_repo() {
    let mut w = workspace();
    let e = w.add_repo_remote("alpha", "nowhere".to_string(), None, None).unwrap_err();
    assert!(matches!(e, ConfigError::UnknownRemote { .. }));
    assert_eq!(e.message(), "remote 'nowhere' not found - add it with `git las remote add`");
    let e = w.add_repo_remote("gamma", "github".to_string(), None, None).unwrap_err();
    assert_eq!(e.message(), "repo 'gamma' is not tracked");
    assert_eq!(repo_remotes(&w, "alpha"), vec!["gitlab"]);
}

#[test]
fn add_then_remove_repo_remote_restores() {
    let mut w = workspace();
    w.add_repo_remote("beta", "github".to_string(), None, Some("u".to_string())).unwrap();
    assert_eq!(repo_remotes(&w, "beta"), vec!["gitlab", "github"]);
    w.remove_repo_remote("beta", "github").unwrap();
    assert_eq!(repo_remotes(&w, "beta"), vec!["gitlab"]);
}

#[test]
fn removing_an_unlisted_repo_remote_is_refused() {
    let mut w = workspace();
    let e = w.remove_repo_remote("alpha", "github").unwrap_err();
    assert!(matches!(e, ConfigError::RepoRemoteNotFound { .. }));
    assert_eq!(e.message(), "remote 'github' not found on repo 'alpha'");
    let e = w.remove_repo_remote("gamma", "github").unwrap_err();
    assert_eq!(e.message(), "repo 'gamma' is not tracked");
    assert_eq!(repo_remotes(&w, "alpha"), vec!["gitlab"]);
}

#[test]
fn primary_is_set_and_resolved() {
    let mut w = workspace();
    w.set_repo_primary("beta", "gitlab".to_string(), Some("b2".to_string()), Some("me2".to_string())).unwrap();
    let r = w.config();
    let p = r.repos[1].primary.as_ref().unwrap();
    assert_eq!(p.name, "gitlab");
    assert_eq!(p.url, "https://gitlab.com/me2/b2.git");
    let e = w.set_repo_primary("beta", "nowhere".to_string(), None, None).unwrap_err();
    assert_eq!(e.message(), "remote 'nowhere' not found - add it with `git las remote add`");
    let e = w.set_repo_primary("zeta", "github".to_string(), None, None).unwrap_err();
    assert_eq!(e.message(), "repo 'zeta' is not tracked");
}

#[test]
fn new_workspace_config_names_the_meta_repo() {
    let c = RawConfig::for_meta_repo("hub");
    assert_eq!(c.meta.repo.as_deref(), Some("hub"));
    assert_eq!(c.remotes.len(), 0);
    assert_eq!(c.repo.len(), 0);
    let w = Workspace::new("/w".to_string(), c).unwrap();
    assert_eq!(w.config().meta.name, "hub");
}
