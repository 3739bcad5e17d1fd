use ai_review::git::{DotGit, Outcome, Reply, Request, StateDir};
use ai_review::json::{count_at, parse_json, text_at};
use ai_review::stack::{
    extract_gg_id, extract_stack_name, extract_username_from_branch, find_stack_branch,
    get_default_base, get_mr_number, get_stack_base, is_stack_branch, parse_stack_entries,
    place_by_name, GgStackInfo,
};
use ai_review::stacks::{
    get_current_stack, get_gg_stack_diff, get_gg_stack_entries, has_gg_stacks, list_gg_stacks,
    read_gg_config, resolve_gg_dir, stack_seeds, HasStacks, StackList,
};

const CONFIG: &str =
    "{\"defaults\":{\"base\":\"main\"},\"stacks\":{\"foo\":{\"base\":\"develop\",\"mrs\":{\"r1\":42}}}}";

fn exited(stdout: &str) -> Reply {
    Reply::Git {
        outcome: Outcome::Exited {
            success: true,
            stdout: stdout.to_string(),
            stderr: String::new(),
        },
    }
}

fn failed(stderr: &str) -> Reply {
    Reply::Git {
        outcome: Outcome::Exited {
            success: false,
            stdout: String::new(),
            stderr: stderr.to_string(),
        },
    }
}

fn not_started(reason: &str) -> Reply {
    Reply::Git { outcome: Outcome::NotStarted { reason: reason.to_string() } }
}

fn text(content: &str) -> Reply {
    Reply::Text { content: Ok(content.to_string()) }
}

fn in_repository() -> Reply {
    Reply::DotGit { found: DotGit::Directory }
}

fn config_is_there() -> Reply {
    Reply::Exists { present: true }
}

fn config_is_absent() -> Reply {
    Reply::Exists { present: false }
}

fn strings(items: &[&str]) -> Vec<String> {
    items.iter().map(|s| s.to_string()).collect()
}

#[test]
fn stack_names_follow_the_branch_convention() {
    assert_eq!(extract_stack_name("alice/foo"), Some("foo".to_string()));
    assert_eq!(extract_username_from_branch("alice/foo"), Some("alice".to_string()));
    assert!(is_stack_branch("alice/foo"));

    assert_eq!(extract_stack_name("alice/foo--draft"), None);
    assert!(!is_stack_branch("alice/foo--draft"));

    assert_eq!(extract_stack_name("alice/foo/bar"), None);
    assert!(!is_stack_branch("alice/foo/bar"));
}

#[test]
fn stack_names_at_the_edges() {
    assert!(!is_stack_branch("main"));
    assert!(!is_stack_branch(""));
    assert!(is_stack_branch("alice/"));
    assert_eq!(extract_stack_name("alice/"), Some(String::new()));
    assert!(is_stack_branch("/foo"));
    assert!(is_stack_branch("alice/foo-bar"));
    assert!(is_stack_branch("alice--x/foo"));
    assert!(!is_stack_branch("alice/--"));
    assert!(!is_stack_branch("alice/a--"));
    assert_eq!(extract_username_from_branch("main"), Some("main".to_string()));
    assert_eq!(extract_username_from_branch(""), Some(String::new()));
    assert_eq!(extract_username_from_branch("a/b/c"), Some("a".to_string()));
}

#[test]
fn gg_id_is_the_first_in_the_body() {
    assert_eq!(extract_gg_id("Some text\n\nGG-ID: r1\nGG-ID: r2\n"), Some("r1".to_string()));
    assert_eq!(extract_gg_id("  GG-ID:   abc-123  \r\n"), Some("abc-123".to_string()));
    assert_eq!(extract_gg_id("GG-ID:"), Some(String::new()));
    assert_eq!(extract_gg_id("no id here\ngg-id: x\nXGG-ID: y"), None);
    assert_eq!(extract_gg_id(""), None);
}

#[test]
fn config_bases_and_numbers() {
    let config = parse_json(CONFIG).unwrap();
    assert_eq!(get_default_base(&config), "main");
    assert_eq!(get_stack_base(&config, "foo"), "develop");
    assert_eq!(get_stack_base(&config, "bar"), "main");
    assert_eq!(get_mr_number(&config, "foo", "r1"), Some(42));
    assert_eq!(get_mr_number(&config, "foo", "r2"), None);
    assert_eq!(get_mr_number(&config, "bar", "r1"), None);
}

#[test]
fn config_defaults_are_lenient() {
    let empty = parse_json("{}").unwrap();
    assert_eq!(get_default_base(&empty), "main");
    assert_eq!(get_stack_base(&empty, "foo"), "main");
    let odd = parse_json(
        "{\"defaults\":\"x\",\"stacks\":{\"foo\":{\"base\":7,\"mrs\":{\"a\":-1,\"b\":1.5,\"c\":\"3\",\"d\":18446744073709551615}}}}",
    )
    .unwrap();
    assert_eq!(get_default_base(&odd), "main");
    assert_eq!(get_stack_base(&odd, "foo"), "main");
    assert_eq!(get_mr_number(&odd, "foo", "a"), None);
    assert_eq!(get_mr_number(&odd, "foo", "b"), None);
    assert_eq!(get_mr_number(&odd, "foo", "c"), None);
    assert_eq!(get_mr_number(&odd, "foo", "d"), Some(u64::MAX));
    let other = parse_json("{\"defaults\":{\"base\":\"trunk\"},\"stacks\":[1,2]}").unwrap();
    assert_eq!(get_default_base(&other), "trunk");
    assert_eq!(get_stack_base(&other, "foo"), "trunk");
    let list = parse_json("[\"defaults\"]").unwrap();
    assert_eq!(get_default_base(&list), "main");
}

#[test]
fn json_paths_lead_to_leaves() {
    let config = parse_json(CONFIG).unwrap();
    assert_eq!(text_at(&config, &vec!["defaults", "base"]), Some("main".to_string()));
    assert_eq!(text_at(&config, &vec!["defaults"]), None);
    assert_eq!(text_at(&config, &vec![]), None);
    assert_eq!(text_at(&config, &vec!["stacks", "foo", "base", "deeper"]), None);
    assert_eq!(count_at(&config, &vec!["stacks", "foo", "mrs", "r1"]), Some(42));
    assert_eq!(count_at(&config, &vec!["stacks", "foo", "base"]), None);
    let leaf = parse_json("\"just text\"").unwrap();
    assert_eq!(text_at(&leaf, &vec![]), Some("just text".to_string()));
    let number = parse_json("7").unwrap();
    assert_eq!(count_at(&number, &vec![]), Some(7));
    assert_eq!(text_at(&number, &vec![]), None);
}

#[test]
fn text_that_is_no_json_is_an_error() {
    let error = parse_json("{not json").unwrap_err();
    assert!(!error.is_empty());
    assert_ne!(error, "{not json");
    assert_eq!(parse_json("{not json").unwrap_err(), error);
}

#[test]
fn reading_the_config_tells_absence_from_damage() {
    assert!(read_gg_config(Ok(CONFIG.to_string())).is_ok());
    let damaged = read_gg_config(Ok("{".to_string())).unwrap_err();
    assert!(damaged.starts_with("Failed to parse git-gud config: "));
    assert!(damaged.len() > "Failed to parse git-gud config: ".len());
    assert_eq!(
        read_gg_config(Err("No such file or directory (os error 2)".to_string())),
        Err("Failed to read gg config: No such file or directory (os error 2)".to_string())
    );
}

#[test]
fn current_stack_is_trimmed() {
    assert_eq!(get_current_stack(Ok(" alice/foo\n".to_string())), Some("alice/foo".to_string()));
    assert_eq!(get_current_stack(Ok(String::new())), Some(String::new()));
    assert_eq!(get_current_stack(Err("gone".to_string())), None);
}

#[test]
fn state_lives_in_the_git_directory() {
    assert_eq!(resolve_gg_dir(&DotGit::Directory), Some(StateDir::Repository));
    assert_eq!(
        resolve_gg_dir(&DotGit::File {
            content: Some("gitdir: /repo/.git/worktrees/wt1\n".to_string())
        }),
        Some(StateDir::Linked { gitdir: "/repo/.git/worktrees/wt1".to_string() })
    );
    assert_eq!(
        resolve_gg_dir(&DotGit::File { content: Some("  gitdir:../main/.git/worktrees/x  ".to_string()) }),
        Some(StateDir::Linked { gitdir: "../main/.git/worktrees/x".to_string() })
    );
    assert_eq!(resolve_gg_dir(&DotGit::File { content: Some("something else".to_string()) }), None);
    assert_eq!(resolve_gg_dir(&DotGit::File { content: None }), None);
    assert_eq!(resolve_gg_dir(&DotGit::Other), None);
    assert_eq!(resolve_gg_dir(&DotGit::Missing), None);
}

#[test]
fn stacks_are_present_where_the_config_file_is() {
    let q = has_gg_stacks();
    assert_eq!(q.pending(), Some(Request::InspectDotGit));
    let q = q.advance(Reply::DotGit { found: DotGit::Directory });
    assert_eq!(
        q.pending(),
        Some(Request::StateFileExists {
            dir: StateDir::Repository,
            name: "config.json".to_string(),
        })
    );
    let q = q.advance(Reply::Exists { present: true });
    assert_eq!(q.pending(), None);
    assert_eq!(q.finish(), Some(true));

    let q = has_gg_stacks()
        .advance(Reply::DotGit { found: DotGit::Directory })
        .advance(Reply::Exists { present: false });
    assert_eq!(q.finish(), Some(false));

    let q = has_gg_stacks().advance(Reply::DotGit { found: DotGit::Missing });
    assert_eq!(q, HasStacks::Done { present: false });
}

#[test]
fn the_stack_branch_is_the_first_that_carries_the_stack() {
    let branches = "main\nbob/foo--draft\nalice/foo\nbob/foo\nalice/bar\n";
    assert_eq!(find_stack_branch(branches, "foo"), Some("alice/foo".to_string()));
    assert_eq!(find_stack_branch(branches, "bar"), Some("alice/bar".to_string()));
    assert_eq!(find_stack_branch(branches, "baz"), None);
    assert_eq!(find_stack_branch(branches, "main"), None);
    assert_eq!(find_stack_branch("", "foo"), None);
}

#[test]
fn seeds_keep_the_first_branch_of_each_name() {
    let config = parse_json(CONFIG).unwrap();
    let seeds = stack_seeds("main\nbob/zed\nalice/foo\nbob/foo\nx/y/z\ncarol/a--b\n", &config);
    let seen: Vec<(&str, &str, &str, &str)> = seeds
        .iter()
        .map(|s| (s.name.as_str(), s.branch.as_str(), s.base.as_str(), s.username.as_str()))
        .collect();
    assert_eq!(
        seen,
        vec![("zed", "bob/zed", "main", "bob"), ("foo", "alice/foo", "develop", "alice")]
    );
}

#[test]
fn stack_entries_end_to_end() {
    let config = parse_json(CONFIG).unwrap();
    let log = "aaaa1111|aaaa|First change\nGG-ID: r1\n\0\nbbbb2222|bbbb|Second | change\nfirst paragraph\n\nsecond paragraph\n\0\ncccc3333|cccc|No body\n\0\nnot a header\n\0\ndddd4444|dddd|Third\nsome text\n\n  GG-ID: r9  \nGG-ID: r1\n\0\n";
    let entries = parse_stack_entries(log, &config, "foo");
    assert_eq!(entries.len(), 4);
    assert_eq!(entries[0].hash, "aaaa1111");
    assert_eq!(entries[0].short_hash, "aaaa");
    assert_eq!(entries[0].title, "First change");
    assert_eq!(entries[0].gg_id, Some("r1".to_string()));
    assert_eq!(entries[0].mr_number, Some(42));
    assert_eq!(entries[0].position, 0);
    assert_eq!(entries[1].title, "Second ");
    assert_eq!(entries[1].gg_id, None);
    assert_eq!(entries[1].mr_number, None);
    assert_eq!(entries[1].position, 1);
    assert_eq!(entries[2].title, "No body");
    assert_eq!(entries[2].gg_id, None);
    assert_eq!(entries[2].position, 2);
    assert_eq!(entries[3].hash, "dddd4444");
    assert_eq!(entries[3].gg_id, Some("r9".to_string()));
    assert_eq!(entries[3].mr_number, None);
    assert_eq!(entries[3].position, 3);
    assert_eq!(get_stack_base(&config, "foo"), "develop");
}

#[test]
fn the_review_id_on_the_first_line_of_the_body_is_found() {
    let config = parse_json(CONFIG).unwrap();
    let entries = parse_stack_entries("abc123|abc1|Add thing\nGG-ID: r1\n\0\n", &config, "foo");
    assert_eq!(entries.len(), 1);
    assert_eq!(entries[0].hash, "abc123");
    assert_eq!(entries[0].title, "Add thing");
    assert_eq!(entries[0].gg_id, Some("r1".to_string()));
    assert_eq!(entries[0].mr_number, Some(42));
    assert_eq!(entries[0].position, 0);
}

#[test]
fn what_git_prints_for_three_commits_gives_three_entries() {
    let config = parse_json(CONFIG).unwrap();
    let log = "f99a9bd38d166ed6d1ed3b633aae84f497620e23|f99a9bd|Add thing\nGG-ID: r1\n\0\n9ade2a6d145de31a89703a316cfe09bfd88feaff|9ade2a6|No body here\n\0\n43dfbbe29a06c75d92d2eba389cf9cb69ca6a551|43dfbbe|Two | paragraphs\nfirst para\n\nGG-ID: r9\n\0\n";
    let entries = parse_stack_entries(log, &config, "foo");
    let seen: Vec<(&str, Option<&str>, Option<u64>, usize)> = entries
        .iter()
        .map(|e| (e.short_hash.as_str(), e.gg_id.as_deref(), e.mr_number, e.position))
        .collect();
    assert_eq!(
        seen,
        vec![
            ("f99a9bd", Some("r1"), Some(42), 0),
            ("9ade2a6", None, None, 1),
            ("43dfbbe", Some("r9"), None, 2),
        ]
    );
}

#[test]
fn blocks_without_a_header_are_no_entries() {
    let config = parse_json(CONFIG).unwrap();
    assert_eq!(parse_stack_entries("", &config, "foo").len(), 0);
    assert_eq!(parse_stack_entries("\0\n\0\n  \n\0", &config, "foo").len(), 0);
    assert_eq!(parse_stack_entries("a|b\nGG-ID: r1\n\0\n", &config, "foo").len(), 0);
    let entries = parse_stack_entries("\n \na|b|c|d\nGG-ID: r1", &config, "foo");
    assert_eq!(entries.len(), 1);
    assert_eq!(entries[0].title, "c");
    assert_eq!(entries[0].gg_id, Some("r1".to_string()));
}

#[test]
fn stack_entries_query_runs_from_config_to_log() {
    let q = get_gg_stack_entries("foo");
    assert_eq!(q.pending(), Some(Request::InspectDotGit));
    let q = q.advance(Reply::DotGit {
        found: DotGit::File { content: Some("gitdir: /r/.git/worktrees/w\n".to_string()) },
    });
    assert_eq!(
        q.pending(),
        Some(Request::StateFileExists {
            dir: StateDir::Linked { gitdir: "/r/.git/worktrees/w".to_string() },
            name: "config.json".to_string(),
        })
    );
    let q = q.advance(config_is_there());
    assert_eq!(
        q.pending(),
        Some(Request::ReadStateFile {
            dir: StateDir::Linked { gitdir: "/r/.git/worktrees/w".to_string() },
            name: "config.json".to_string(),
        })
    );
    let q = q.advance(text(CONFIG));
    assert_eq!(
        q.pending(),
        Some(Request::Git {
            args: strings(&["for-each-ref", "--format=%(refname:short)", "refs/heads/"]),
        })
    );
    let q = q.advance(exited("main\nalice/foo\n"));
    assert_eq!(
        q.pending(),
        Some(Request::Git {
            args: strings(&[
                "log",
                "--reverse",
                "--format=%H|%h|%s%n%b%x00",
                "develop..alice/foo"
            ]),
        })
    );
    let q = q.advance(exited("aaaa1111|aaaa|First change\nGG-ID: r1\n\0\n"));
    assert_eq!(q.pending(), None);
    let entries = q.finish().unwrap().unwrap();
    assert_eq!(entries.len(), 1);
    assert_eq!(entries[0].gg_id, Some("r1".to_string()));
    assert_eq!(entries[0].mr_number, Some(42));
    assert_eq!(entries[0].position, 0);
}

#[test]
fn without_a_configuration_a_stack_has_no_entries() {
    let q = get_gg_stack_entries("foo").advance(Reply::DotGit { found: DotGit::Missing });
    assert_eq!(q.pending(), None);
    assert_eq!(q.finish(), Some(Ok(Vec::new())));

    let q = get_gg_stack_entries("foo").advance(in_repository()).advance(config_is_absent());
    assert_eq!(q.pending(), None);
    assert_eq!(q.finish(), Some(Ok(Vec::new())));
}

#[test]
fn stack_entries_query_fails_as_described() {
    let q = get_gg_stack_entries("foo")
        .advance(in_repository())
        .advance(config_is_there())
        .advance(Reply::Text { content: Err("denied".to_string()) });
    assert_eq!(q.finish(), Some(Err("Failed to read gg config: denied".to_string())));

    let q = get_gg_stack_entries("foo")
        .advance(in_repository())
        .advance(config_is_there())
        .advance(text("nonsense"));
    let error = q.finish().unwrap().unwrap_err();
    assert!(error.starts_with("Failed to parse git-gud config: "));

    let loaded = || {
        get_gg_stack_entries("foo")
            .advance(in_repository())
            .advance(config_is_there())
            .advance(text(CONFIG))
    };
    assert_eq!(
        loaded().advance(not_started("no git")).finish(),
        Some(Err("Failed to list branches: no git".to_string()))
    );
    assert_eq!(
        loaded().advance(exited("main\n")).finish(),
        Some(Err("Stack branch not found for: foo".to_string()))
    );
    assert_eq!(
        loaded().advance(failed("ignored")).finish(),
        Some(Err("Stack branch not found for: foo".to_string()))
    );
    assert_eq!(
        loaded().advance(exited("a/foo\n")).advance(failed("fatal: bad revision")).finish(),
        Some(Err("fatal: bad revision".to_string()))
    );
    assert_eq!(
        loaded().advance(exited("a/foo\n")).advance(not_started("gone")).finish(),
        Some(Err("Failed to get stack commits: gone".to_string()))
    );
}

#[test]
fn stack_diff_query_asks_for_the_range() {
    let q = get_gg_stack_diff("bar")
        .advance(in_repository())
        .advance(config_is_there())
        .advance(text(CONFIG))
        .advance(exited("alice/foo\nalice/bar\n"));
    assert_eq!(
        q.pending(),
        Some(Request::Git { args: strings(&["diff", "--no-color", "main..alice/bar"]) })
    );
    let q = q.advance(exited("diff --git a/x b/x\n"));
    assert_eq!(q.finish(), Some(Ok("diff --git a/x b/x\n".to_string())));

    let q = get_gg_stack_diff("bar")
        .advance(in_repository())
        .advance(config_is_there())
        .advance(text(CONFIG))
        .advance(exited("alice/bar\n"))
        .advance(not_started("gone"));
    assert_eq!(q.finish(), Some(Err("Failed to get stack diff: gone".to_string())));
}

#[test]
fn without_a_configuration_a_stack_has_an_empty_diff() {
    let q = get_gg_stack_diff("bar").advance(Reply::DotGit { found: DotGit::Other });
    assert_eq!(q.finish(), Some(Ok(String::new())));
    let q = get_gg_stack_diff("bar").advance(in_repository());
    assert_eq!(
        q.pending(),
        Some(Request::StateFileExists {
            dir: StateDir::Repository,
            name: "config.json".to_string(),
        })
    );
    assert_eq!(q.advance(config_is_absent()).finish(), Some(Ok(String::new())));
    let q = get_gg_stack_diff("bar")
        .advance(in_repository())
        .advance(config_is_there())
        .advance(text("{"));
    assert!(q.finish().unwrap().unwrap_err().starts_with("Failed to parse git-gud config: "));
}

#[test]
fn stacks_are_listed_sorted_by_name() {
    let q = list_gg_stacks();
    assert_eq!(q.pending(), Some(Request::InspectDotGit));
    let q = q.advance(Reply::DotGit { found: DotGit::Directory });
    assert_eq!(
        q.pending(),
        Some(Request::StateFileExists {
            dir: StateDir::Repository,
            name: "config.json".to_string(),
        })
    );
    let q = q.advance(config_is_there());
    assert_eq!(
        q.pending(),
        Some(Request::ReadStateFile { dir: StateDir::Repository, name: "config.json".to_string() })
    );
    let q = q.advance(text(CONFIG));
    assert_eq!(
        q.pending(),
        Some(Request::ReadStateFile {
            dir: StateDir::Repository,
            name: "current_stack".to_string(),
        })
    );
    let q = q.advance(text("alice/foo\n"));
    assert_eq!(
        q.pending(),
        Some(Request::Git {
            args: strings(&["for-each-ref", "--format=%(refname:short)", "refs/heads/"]),
        })
    );
    let q = q.advance(exited("main\nbob/zed\nalice/foo\nbob/foo\nbob/Bar\n"));
    assert_eq!(
        q.pending(),
        Some(Request::Git { args: strings(&["rev-list", "--count", "main..bob/zed"]) })
    );
    let q = q.advance(exited("3\n"));
    assert_eq!(
        q.pending(),
        Some(Request::Git { args: strings(&["rev-list", "--count", "develop..alice/foo"]) })
    );
    let q = q.advance(failed("fatal: bad revision"));
    assert_eq!(
        q.pending(),
        Some(Request::Git { args: strings(&["rev-list", "--count", "main..bob/Bar"]) })
    );
    let q = q.advance(exited("many\n"));
    assert_eq!(q.pending(), None);
    let stacks = q.finish().unwrap().unwrap();
    assert_eq!(
        stacks,
        vec![
            GgStackInfo {
                name: "Bar".to_string(),
                base: "main".to_string(),
                commit_count: 0,
                is_current: false,
                username: "bob".to_string(),
            },
            GgStackInfo {
                name: "foo".to_string(),
                base: "develop".to_string(),
                commit_count: 0,
                is_current: true,
                username: "alice".to_string(),
            },
            GgStackInfo {
                name: "zed".to_string(),
                base: "main".to_string(),
                commit_count: 3,
                is_current: false,
                username: "bob".to_string(),
            },
        ]
    );
}

#[test]
fn without_a_configuration_there_are_no_stacks() {
    for found in [DotGit::Missing, DotGit::Other, DotGit::File { content: None }] {
        let q = list_gg_stacks().advance(Reply::DotGit { found });
        assert_eq!(q.pending(), None);
        assert_eq!(q.finish(), Some(Ok(Vec::new())));
    }
    let q = list_gg_stacks().advance(in_repository()).advance(config_is_absent());
    assert_eq!(q.pending(), None);
    assert_eq!(q.finish(), Some(Ok(Vec::new())));
}

#[test]
fn stack_listing_fails_as_described() {
    let q = list_gg_stacks()
        .advance(in_repository())
        .advance(config_is_there())
        .advance(text("{\"stacks\":"));
    let error = q.finish().unwrap().unwrap_err();
    assert!(error.starts_with("Failed to parse git-gud config: "));
    assert!(error.len() > "Failed to parse git-gud config: ".len());

    let q = list_gg_stacks()
        .advance(in_repository())
        .advance(config_is_there())
        .advance(Reply::Text { content: Err("denied".to_string()) });
    assert_eq!(q.finish(), Some(Err("Failed to read gg config: denied".to_string())));

    let loaded = || {
        list_gg_stacks()
            .advance(in_repository())
            .advance(config_is_there())
            .advance(text("{}"))
            .advance(Reply::Text { content: Err("absent".to_string()) })
    };
    assert_eq!(loaded().advance(failed("fatal: x")).finish(), Some(Err("fatal: x".to_string())));
    assert_eq!(
        loaded().advance(not_started("gone")).finish(),
        Some(Err("Failed to list branches: gone".to_string()))
    );
    assert_eq!(loaded().advance(exited("main\n")).finish(), Some(Ok(Vec::new())));
    assert_eq!(
        loaded().advance(exited("a/b\n")).advance(not_started("gone")).finish(),
        Some(Err("Failed to count commits: gone".to_string()))
    );
    let stacks = loaded().advance(exited("a/b\n")).advance(exited("+12")).finish().unwrap().unwrap();
    assert_eq!(stacks.len(), 1);
    assert_eq!(stacks[0].commit_count, 12);
    assert!(!stacks[0].is_current);
    assert_eq!(stacks[0].base, "main");
}

#[test]
fn an_unfitting_reply_leaves_a_stack_query_as_it_is() {
    let q = list_gg_stacks().advance(exited("x"));
    assert_eq!(q, StackList::Locating);
}

fn stack(name: &str) -> GgStackInfo {
    GgStackInfo {
        name: name.to_string(),
        base: String::new(),
        commit_count: 0,
        is_current: false,
        username: String::new(),
    }
}

#[test]
fn names_sort_by_character_code() {
    let mut list = Vec::new();
    for name in ["b", "a", "ab", "B", "", "a", "é", "z"] {
        place_by_name(&mut list, stack(name));
    }
    let names: Vec<&str> = list.iter().map(|s| s.name.as_str()).collect();
    let mut expected = vec!["b", "a", "ab", "B", "", "a", "é", "z"];
    expected.sort();
    assert_eq!(names, expected);
}
