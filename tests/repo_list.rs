use repo_mirror::{ssh_identity, CredentialError};
use repo_mirror::{
    add_blank_repo, remove_repo, repo_dir_name, seed_urls, update_repo, url_host, validate_config,
    ConfigError, PropertyError, PropertySetter, RepoMirrorConfigServer, SyncRepository,
};

fn repo(source: &str, mirror: &str) -> SyncRepository {
    SyncRepository { source: source.to_string(), mirror: mirror.to_string() }
}

#[test]
fn dir_name_strips_git_suffix() {
    assert_eq!(repo_dir_name("https://example.test/repo-a.git"), Some("repo-a".to_string()));
    assert_eq!(repo_dir_name("git@host.test:group/tool"), Some("tool".to_string()));
    assert_eq!(repo_dir_name("plain"), Some("plain".to_string()));
    assert_eq!(repo_dir_name("https://x.test/a.git.git"), Some("a.git".to_string()));
}

#[test]
fn dir_name_empty_is_none() {
    assert_eq!(repo_dir_name(""), None);
    assert_eq!(repo_dir_name("https://x.test/"), None);
    assert_eq!(repo_dir_name("https://x.test/.git"), None);
}

#[test]
fn hosts_of_urls() {
    assert_eq!(url_host("https://example.test/repo-a.git"), "example.test");
    assert_eq!(url_host("ssh://git@mirror.test:2222/repo-a.git"), "mirror.test");
    assert_eq!(url_host("git@github.com:owner/repo.git"), "github.com");
    assert_eq!(url_host("host.only"), "host.only");
}

#[test]
fn seed_urls_one_per_host() {
    let repos = vec![
        repo("git@a.test:x/one.git", "git@m.test:x/one.git"),
        repo("git@a.test:x/two.git", ""),
        repo("https://b.test/three.git", "ssh://git@m.test/three.git"),
    ];
    assert_eq!(
        seed_urls(&repos),
        vec![
            "git@a.test:x/one.git".to_string(),
            "git@m.test:x/one.git".to_string(),
            "https://b.test/three.git".to_string()
        ]
    );
}

#[test]
fn empty_config_is_refused() {
    assert_eq!(validate_config(&vec![]), Err(ConfigError::Empty));
    assert_eq!(validate_config(&vec![repo("a", "b")]), Ok(()));
}

#[test]
fn set_property_checks_old_value() {
    let mut r = repo("s1", "m1");
    assert_eq!(r.set_property("source", "s2".to_string(), "s1".to_string()), Ok(()));
    assert_eq!(r.source, "s2");
    assert_eq!(r.set_property("mirror", "m2".to_string(), "zz".to_string()), Err(PropertyError::Mismatch));
    assert_eq!(r.mirror, "m1");
    assert_eq!(r.set_property("mirror", "m2".to_string(), "m1".to_string()), Ok(()));
    assert_eq!(r.mirror, "m2");
    assert_eq!(r.set_property("owner", "x".to_string(), "s2".to_string()), Err(PropertyError::UnknownField));
}

#[test]
fn list_edits() {
    let mut repos = vec![repo("a", "b"), repo("c", "d")];
    assert_eq!(update_repo(&mut repos, 1, "mirror", "e".to_string(), "d".to_string()), Ok(()));
    assert_eq!(repos[1].mirror, "e");
    assert_eq!(repos[0].mirror, "b");
    assert_eq!(update_repo(&mut repos, 2, "mirror", "e".to_string(), "d".to_string()), Err(PropertyError::NoSuchIndex));
    add_blank_repo(&mut repos);
    assert_eq!(repos.len(), 3);
    assert_eq!(repos[2].source, "");
    assert!(remove_repo(&mut repos, 0));
    assert_eq!(repos[0].source, "c");
    assert!(!remove_repo(&mut repos, 5));
    assert_eq!(repos.len(), 2);
    let _server = RepoMirrorConfigServer::new();
}

#[test]
fn ssh_identity_from_username_and_home() {
    let id = ssh_identity(Some("git".to_string()), Some("/home/ops".to_string())).ok().unwrap();
    assert_eq!(id.username, "git");
    assert_eq!(id.private_key, "/home/ops/.ssh/id_rsa");
    assert_eq!(ssh_identity(None, Some("/h".to_string())).err(), Some(CredentialError::NoUsername));
    assert_eq!(ssh_identity(Some("git".to_string()), None).err(), Some(CredentialError::NoHome));
}
