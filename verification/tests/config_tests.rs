use ai_review::config::{add_repo, list_repos, remove_repo, Config, PathInfo};

fn found(exists: bool, file_name: Option<&str>) -> PathInfo {
    PathInfo { exists, file_name: file_name.map(|n| n.to_string()) }
}

#[test]
fn the_default_config_holds_no_repository() {
    let config = Config::default();
    assert!(config.repos.is_empty());
}

#[test]
fn test_add_and_list_repos() {
    let mut config = Config::default();
    assert!(add_repo(&mut config, "/tmp".to_string()));
    let repos = list_repos(&config, &vec![found(true, Some("tmp"))]);
    assert_eq!(repos.len(), 1);
    assert!(!add_repo(&mut config, "/tmp".to_string()));
    let repos = list_repos(&config, &vec![found(true, Some("tmp"))]);
    assert_eq!(repos.len(), 1);
    assert_eq!(repos[0], ("tmp".to_string(), "/tmp".to_string()));
}

#[test]
fn test_remove_repo() {
    let mut config = Config::default();
    add_repo(&mut config, "/tmp".to_string());
    assert_eq!(list_repos(&config, &vec![found(true, Some("tmp"))]).len(), 1);
    remove_repo(&mut config, "/tmp");
    assert_eq!(list_repos(&config, &vec![]).len(), 0);
    assert!(config.repos.is_empty());
}

#[test]
fn test_list_filters_nonexistent() {
    let mut config = Config::default();
    config.repos.push("/nonexistent/fake/repo".to_string());
    let repos = list_repos(&config, &vec![found(false, Some("repo"))]);
    assert!(repos.is_empty());
}

#[test]
fn repositories_keep_their_order() {
    let mut config = Config::default();
    for path in ["/a/one", "/b/two", "/", "/c/three"] {
        assert!(add_repo(&mut config, path.to_string()));
    }
    assert!(!add_repo(&mut config, "/b/two".to_string()));
    assert_eq!(config.repos, vec!["/a/one", "/b/two", "/", "/c/three"]);
    let repos = list_repos(
        &config,
        &vec![found(true, Some("one")), found(false, Some("two")), found(true, None)],
    );
    assert_eq!(
        repos,
        vec![("one".to_string(), "/a/one".to_string()), ("/".to_string(), "/".to_string())]
    );
    remove_repo(&mut config, "/b/two");
    remove_repo(&mut config, "/nowhere");
    assert_eq!(config.repos, vec!["/a/one", "/", "/c/three"]);
}

#[test]
fn removing_forgets_every_copy() {
    let mut config = Config {
        repos: vec!["/a".to_string(), "/b".to_string(), "/a".to_string()],
    };
    remove_repo(&mut config, "/a");
    assert_eq!(config.repos, vec!["/b"]);
}
