use git_las::providers::{BbAuth, BbConfig, GhHost, GitHub, GitLab, Gitea, GlabConfig, GlabHost, TeaConfig, TeaLogin, Bitbucket};
use git_las::strmap::StrMap;
use git_las::types::raw::RawSecretsConfig;

#[test]
fn github_token_by_host() {
    let mut hosts = StrMap::new();
    hosts.insert("github.com".to_string(), GhHost { oauth_token: Some("gho_1".to_string()) });
    hosts.insert("ghe.corp".to_string(), GhHost { oauth_token: None });
    assert_eq!(GitHub { host: "github.com".to_string() }.token_from_config(&hosts), Some("gho_1".to_string()));
    assert_eq!(GitHub { host: "ghe.corp".to_string() }.token_from_config(&hosts), None);
    assert_eq!(GitHub { host: "other".to_string() }.token_from_config(&hosts), None);
}

#[test]
fn gitlab_token_by_host() {
    let mut hosts = StrMap::new();
    hosts.insert("gitlab.com".to_string(), GlabHost { token: Some("glpat".to_string()) });
    let c = GlabConfig { hosts: Some(hosts) };
    assert_eq!(GitLab { host: "gitlab.com".to_string() }.token_from_config(&c), Some("glpat".to_string()));
    assert_eq!(GitLab { host: "x".to_string() }.token_from_config(&c), None);
    assert_eq!(GitLab { host: "gitlab.com".to_string() }.token_from_config(&GlabConfig { hosts: None }), None);
}

#[test]
fn gitea_token_of_first_matching_login() {
    let c = TeaConfig {
        logins: Some(vec![
            TeaLogin { url: "https://other.io".to_string(), token: Some("t0".to_string()) },
            TeaLogin { url: "https://gitea.io/".to_string(), token: Some("t1".to_string()) },
            TeaLogin { url: "https://gitea.io".to_string(), token: Some("t2".to_string()) },
        ]),
    };
    assert_eq!(Gitea { base_url: "https://gitea.io".to_string() }.token_from_config(&c), Some("t1".to_string()));
    assert_eq!(Gitea { base_url: "https://gitea.io//".to_string() }.token_from_config(&c), Some("t1".to_string()));
    assert_eq!(Gitea { base_url: "https://none.io".to_string() }.token_from_config(&c), None);
    assert_eq!(Gitea { base_url: "https://gitea.io".to_string() }.token_from_config(&TeaConfig { logins: None }), None);
}

#[test]
fn bitbucket_token_from_auth() {
    let c = BbConfig { auth: Some(BbAuth { token: Some("bb".to_string()) }) };
    assert_eq!(Bitbucket.token_from_config(&c), Some("bb".to_string()));
    assert_eq!(Bitbucket.token_from_config(&BbConfig { auth: None }), None);
    assert_eq!(Bitbucket.token_from_config(&BbConfig { auth: Some(BbAuth { token: None }) }), None);
}

#[test]
fn token_read_after_write() {
    let mut s = RawSecretsConfig::default();
    s.set_token("github", "a".to_string());
    s.set_token("gitlab", "b".to_string());
    s.set_token("github", "c".to_string());
    assert_eq!(s.token("github"), Some("c".to_string()));
    assert_eq!(s.token("gitlab"), Some("b".to_string()));
    assert_eq!(s.token("gitea"), None);
    assert_eq!(s.remotes.len(), 2);
    s.remove_token("github");
    assert_eq!(s.token("github"), None);
    assert_eq!(s.token("gitlab"), Some("b".to_string()));
}
