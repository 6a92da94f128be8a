use git_las::error::ConfigError;
use git_las::resolve::{resolve_config, resolve_primary, resolve_push_remotes, resolve_url};
use git_las::strmap::StrMap;
use git_las::types::raw::{RawConfig, RawMeta, RawRemote, RawRemoteConfig, RawRepo};
use git_las::validate::{validate_config, validate_remote_list};

fn global(url: &str, user: &str) -> RawRemoteConfig {
    RawRemoteConfig { url: url.to_string(), user: user.to_string() }
}

fn bare(name: &str) -> RawRemote {
    RawRemote { name: name.to_string(), repo: None, user: None }
}

fn globals() -> StrMap<RawRemoteConfig> {
    let mut g = StrMap::new();
    g.insert("github".to_string(), global("https://github.com", "me"));
    g.insert("gitlab".to_string(), global("https://gitlab.com", "team"));
    g
}

fn sample() -> RawConfig {
    let mut repo = StrMap::new();
    repo.insert("alpha".to_string(), RawRepo { primary: Some(bare("github")), remotes: vec![bare("gitlab")] });
    repo.insert("beta".to_string(), RawRepo::default());
    RawConfig { meta: RawMeta::default(), remotes: globals(), repo }
}

#[test]
fn url_uses_remote_user_and_repo_name() {
    let url = resolve_url(&global("https://github.com", "me"), &bare("github"), "proj");
    assert_eq!(url, "https://github.com/me/proj.git");
}

#[test]
fn url_overrides_win() {
    let raw = RawRemote { name: "github".to_string(), repo: Some("other".to_string()), user: Some("org".to_string()) };
    let url = resolve_url(&global("https://github.com", "me"), &raw, "proj");
    assert_eq!(url, "https://github.com/org/other.git");
}

#[test]
fn primary_is_resolved_or_absent() {
    let g = globals();
    let p = resolve_primary(&g, &Some(bare("gitlab")), "proj").unwrap();
    assert_eq!(p.name, "gitlab");
    assert_eq!(p.url, "https://gitlab.com/team/proj.git");
    assert!(resolve_primary(&g, &None, "proj").is_none());
}

#[test]
fn listed_push_remotes_keep_their_order() {
    let g = globals();
    let list = vec![bare("gitlab"), RawRemote { name: "github".to_string(), repo: None, user: Some("x".to_string()) }];
    let r = resolve_push_remotes(&g, &list, "p");
    assert_eq!(r.len(), 2);
    assert_eq!(r[0].url, "https://gitlab.com/team/p.git");
    assert_eq!(r[1].name, "github");
    assert_eq!(r[1].url, "https://github.com/x/p.git");
}

#[test]
fn empty_list_falls_back_to_every_global_remote() {
    let g = globals();
    let r = resolve_push_remotes(&g, &Vec::new(), "p");
    let bare_refs: Vec<String> = vec![
        resolve_url(&global("https://github.com", "me"), &bare("github"), "p"),
        resolve_url(&global("https://gitlab.com", "team"), &bare("gitlab"), "p"),
    ];
    assert_eq!(r.len(), 2);
    assert_eq!(r[0].name, "github");
    assert_eq!(r[0].url, bare_refs[0]);
    assert_eq!(r[1].name, "gitlab");
    assert_eq!(r[1].url, bare_refs[1]);
}

#[test]
fn resolve_config_computes_paths_and_urls() {
    let c = sample();
    let r = resolve_config(&c, "/work");
    assert_eq!(r.meta.name, "gitlas");
    assert_eq!(r.meta.path, "/work/.gitlas");
    assert!(r.meta.primary.is_none());
    assert_eq!(r.meta.push_remotes.len(), 2);
    assert_eq!(r.meta.push_remotes[0].url, "https://github.com/me/gitlas.git");
    assert_eq!(r.repos.len(), 2);
    assert_eq!(r.repos[0].name, "alpha");
    assert_eq!(r.repos[0].path, "/work/alpha");
    assert_eq!(r.repos[0].primary.as_ref().unwrap().url, "https://github.com/me/alpha.git");
    assert_eq!(r.repos[0].push_remotes.len(), 1);
    assert_eq!(r.repos[0].push_remotes[0].url, "https://gitlab.com/team/alpha.git");
    assert_eq!(r.repos[1].path, "/work/beta");
    assert_eq!(r.repos[1].push_remotes.len(), 2);
    assert_eq!(r.remotes.len(), 2);
    assert_eq!(r.remotes[1].name, "gitlab");
    assert_eq!(r.remotes[1].url, "https://gitlab.com");
    assert_eq!(r.remotes[1].user, "team");
}

#[test]
fn resolve_config_uses_the_configured_meta_name() {
    let mut c = sample();
    c.meta.repo = Some("hub".to_string());
    c.meta.remotes = vec![bare("gitlab")];
    let r = resolve_config(&c, "/work/");
    assert_eq!(r.meta.name, "hub");
    assert_eq!(r.meta.path, "/work/.gitlas");
    assert_eq!(r.meta.push_remotes.len(), 1);
    assert_eq!(r.meta.push_remotes[0].url, "https://gitlab.com/team/hub.git");
}

#[test]
fn valid_config_passes() {
    assert!(validate_config(&sample()).is_ok());
    assert!(validate_config(&RawConfig::default()).is_ok());
}

#[test]
fn meta_primary_must_be_declared() {
    let mut c = sample();
    c.meta.primary = Some(bare("nowhere"));
    let e = validate_config(&c).unwrap_err();
    assert!(matches!(e, ConfigError::MetaPrimaryMissing { .. }));
    assert_eq!(e.message(), "meta: primary remote 'nowhere' not found in [remotes]");
}

#[test]
fn repo_primary_must_be_declared() {
    let mut c = sample();
    c.repo.insert("beta".to_string(), RawRepo { primary: Some(bare("nowhere")), remotes: Vec::new() });
    let e = validate_config(&c).unwrap_err();
    assert_eq!(e.message(), "repo 'beta': primary remote 'nowhere' not found in [remotes]");
}

#[test]
fn listed_remote_must_be_declared() {
    let e = validate_remote_list("meta", &vec![bare("github"), bare("nowhere")], &globals()).unwrap_err();
    assert!(matches!(e, ConfigError::ListRemoteMissing { .. }));
    assert_eq!(e.message(), "meta: remote 'nowhere' not found in [remotes]");
}

#[test]
fn listed_remote_must_not_repeat() {
    let e = validate_remote_list("alpha", &vec![bare("github"), bare("gitlab"), bare("github")], &globals()).unwrap_err();
    assert!(matches!(e, ConfigError::DuplicateRemote { .. }));
    assert_eq!(e.message(), "alpha: duplicate remote 'github'");
}

#[test]
fn first_bad_entry_is_reported() {
    let e = validate_remote_list("x", &vec![bare("github"), bare("github"), bare("nowhere")], &globals()).unwrap_err();
    assert_eq!(e.message(), "x: duplicate remote 'github'");
    let e = validate_remote_list("x", &vec![bare("nowhere"), bare("nowhere")], &globals()).unwrap_err();
    assert_eq!(e.message(), "x: remote 'nowhere' not found in [remotes]");
}

#[test]
fn meta_is_checked_before_repos() {
    let mut c = sample();
    c.repo.insert("beta".to_string(), RawRepo { primary: Some(bare("bad1")), remotes: Vec::new() });
    c.meta.remotes = vec![bare("bad2")];
    let e = validate_config(&c).unwrap_err();
    assert_eq!(e.message(), "meta: remote 'bad2' not found in [remotes]");
}

#[test]
fn repos_are_checked_in_order() {
    let mut c = sample();
    c.repo.insert("alpha".to_string(), RawRepo { primary: None, remotes: vec![bare("gitlab"), bare("gitlab")] });
    c.repo.insert("beta".to_string(), RawRepo { primary: Some(bare("bad")), remotes: Vec::new() });
    let e = validate_config(&c).unwrap_err();
    assert_eq!(e.message(), "alpha: duplicate remote 'gitlab'");
}
