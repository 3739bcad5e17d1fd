use ai_review::git::{Outcome, Reply, Request};
use ai_review::worktree::{
    has_worktrees, list_worktrees, parse_worktree_list, place, WorktreeInfo, Worktrees,
};

#[test]
fn test_parse_worktree_list_with_branches() {
    let output = "worktree /repo/main\nHEAD abc1234def5678\nbranch refs/heads/main\n\nworktree /repo/wt1\nHEAD def5678abc1234\nbranch refs/heads/feature-x\n";
    let worktrees = parse_worktree_list(output);

    assert_eq!(worktrees.len(), 2);
    assert_eq!(worktrees[0].path, "/repo/main");
    assert_eq!(worktrees[0].branch, "main");
    assert_eq!(worktrees[0].commit_hash, "abc1234");
    assert!(worktrees[0].is_main);
    assert_eq!(worktrees[0].last_activity, 0);

    assert_eq!(worktrees[1].path, "/repo/wt1");
    assert_eq!(worktrees[1].branch, "feature-x");
    assert_eq!(worktrees[1].commit_hash, "def5678");
    assert!(!worktrees[1].is_main);
    assert_eq!(worktrees[1].last_activity, 0);
}

#[test]
fn test_parse_worktree_list_detached() {
    let output = "worktree /repo/main\nHEAD abc1234def5678\nbranch refs/heads/main\n\nworktree /repo/wt-detached\nHEAD 1234567890abcd\ndetached\n";
    let worktrees = parse_worktree_list(output);

    assert_eq!(worktrees.len(), 2);
    assert_eq!(worktrees[1].branch, "(detached)");
    assert_eq!(worktrees[1].commit_hash, "1234567");
    assert_eq!(worktrees[1].last_activity, 0);
}

#[test]
fn test_parse_worktree_list_ignores_invalid_blocks() {
    let output = "HEAD abc1234def5678\nbranch refs/heads/main\n\nworktree /repo/wt1\nHEAD def5678abc1234\nbranch refs/heads/feature-x\n";
    let worktrees = parse_worktree_list(output);

    assert_eq!(worktrees.len(), 1);
    assert_eq!(worktrees[0].path, "/repo/wt1");
    assert!(worktrees[0].is_main);
    assert_eq!(worktrees[0].last_activity, 0);
}

#[test]
fn first_block_is_main_whatever_it_holds() {
    let output = "worktree /repo/a\nHEAD abc\n\nworktree /repo/b\nHEAD 0123456789\ndetached\n";
    let worktrees = parse_worktree_list(output);

    assert_eq!(worktrees.len(), 2);
    assert!(worktrees[0].is_main);
    assert_eq!(worktrees[0].branch, "(detached)");
    assert_eq!(worktrees[0].commit_hash, "abc");
    assert!(!worktrees[1].is_main);
    assert_eq!(worktrees[1].branch, "(detached)");
    assert_eq!(worktrees[1].commit_hash, "0123456");
}

#[test]
fn a_later_line_overrides_an_earlier_one() {
    let worktrees =
        parse_worktree_list("worktree /a\nbranch refs/heads/y\nHEAD 1\nbranch refs/heads/x\nHEAD 2\nworktree  /b \n");
    assert_eq!(worktrees.len(), 1);
    assert_eq!(worktrees[0].path, "/b");
    assert_eq!(worktrees[0].branch, "x");
    assert_eq!(worktrees[0].commit_hash, "2");
}

#[test]
fn a_detached_line_counts_wherever_it_stands() {
    for output in [
        "worktree /a\ndetached\n",
        "worktree /a\ndetached\nbranch refs/heads/x\n",
        "worktree /a\nbranch refs/heads/x\ndetached\n",
        "detached\nbranch refs/heads/x\nworktree /a\nbranch refs/heads/y\n",
        "worktree /a\nbranch refs/heads/x\n  detached \r\nbranch refs/heads/y",
    ] {
        let worktrees = parse_worktree_list(output);
        assert_eq!(worktrees.len(), 1, "for {:?}", output);
        assert_eq!(worktrees[0].path, "/a", "for {:?}", output);
        assert_eq!(worktrees[0].branch, "(detached)", "for {:?}", output);
        assert!(worktrees[0].is_main);
    }
    let two = parse_worktree_list("worktree /a\ndetached\n\nworktree /b\nbranch refs/heads/x\n");
    assert_eq!(two[0].branch, "(detached)");
    assert_eq!(two[1].branch, "x");
}

#[test]
fn a_branch_outside_refs_heads_keeps_its_full_name() {
    let worktrees = parse_worktree_list("worktree /a\nbranch refs/remotes/origin/x\n");
    assert_eq!(worktrees[0].branch, "refs/remotes/origin/x");
}

#[test]
fn an_empty_listing_has_no_worktrees() {
    assert_eq!(parse_worktree_list("").len(), 0);
    assert_eq!(parse_worktree_list("\n\n\n\n").len(), 0);
}

fn worktree(path: &str, last_activity: i64) -> WorktreeInfo {
    WorktreeInfo {
        path: path.to_string(),
        branch: "b".to_string(),
        commit_hash: String::new(),
        is_main: false,
        last_activity,
    }
}

#[test]
fn place_keeps_latest_first_and_equal_ones_in_order() {
    let mut list = Vec::new();
    place(&mut list, worktree("a", 5));
    place(&mut list, worktree("b", 9));
    place(&mut list, worktree("c", 5));
    place(&mut list, worktree("d", 1));
    place(&mut list, worktree("e", 9));
    let paths: Vec<&str> = list.iter().map(|w| w.path.as_str()).collect();
    assert_eq!(paths, vec!["b", "e", "a", "c", "d"]);
}

fn exited(stdout: &str) -> Reply {
    Reply::Git {
        outcome: Outcome::Exited {
            success: true,
            stdout: stdout.to_string(),
            stderr: String::new(),
        },
    }
}

fn failed(stderr: &str) -> Reply {
    Reply::Git {
        outcome: Outcome::Exited {
            success: false,
            stdout: String::new(),
            stderr: stderr.to_string(),
        },
    }
}

fn strings(items: &[&str]) -> Vec<String> {
    items.iter().map(|s| s.to_string()).collect()
}

#[test]
fn worktrees_are_stamped_and_sorted() {
    let q = list_worktrees();
    assert_eq!(
        q.pending(),
        Some(Request::Git { args: strings(&["worktree", "list", "--porcelain"]) })
    );
    let q = q.advance(exited(
        "worktree /repo/main\nHEAD abc1234def\nbranch refs/heads/main\n\nworktree /repo/wt1\nHEAD def5678abc\nbranch refs/heads/x\n\nworktree /repo/wt2\nHEAD 1111111222\ndetached\n",
    ));
    assert_eq!(
        q.pending(),
        Some(Request::GitIn {
            cwd: "/repo/main".to_string(),
            args: strings(&["log", "-1", "--format=%ct"]),
        })
    );
    let q = q.advance(exited("100\n"));
    assert_eq!(
        q.pending(),
        Some(Request::GitIn {
            cwd: "/repo/wt1".to_string(),
            args: strings(&["log", "-1", "--format=%ct"]),
        })
    );
    let q = q.advance(exited(" 300 \n"));
    let q = q.advance(failed("fatal: no commits"));
    assert_eq!(q.pending(), None);
    let worktrees = q.finish().unwrap().unwrap();
    let seen: Vec<(&str, i64, bool)> =
        worktrees.iter().map(|w| (w.path.as_str(), w.last_activity, w.is_main)).collect();
    assert_eq!(
        seen,
        vec![("/repo/wt1", 300, false), ("/repo/main", 100, true), ("/repo/wt2", 0, false)]
    );
    assert!(has_worktrees(&Ok(worktrees)));
}

#[test]
fn a_lone_worktree_is_not_shown() {
    let q = list_worktrees().advance(exited("worktree /repo/main\nHEAD abc1234def\nbranch refs/heads/main\n"));
    let q = q.advance(exited("100\n"));
    let listing = q.finish().unwrap();
    assert_eq!(listing, Ok(Vec::new()));
    assert!(!has_worktrees(&listing));
}

#[test]
fn a_failed_listing_is_an_error() {
    let q = list_worktrees().advance(failed("fatal: not a git repository"));
    let listing = q.finish().unwrap();
    assert_eq!(listing, Err("fatal: not a git repository".to_string()));
    assert!(!has_worktrees(&listing));
    let q = list_worktrees()
        .advance(Reply::Git { outcome: Outcome::NotStarted { reason: "No such file".to_string() } });
    assert_eq!(
        q.finish().unwrap(),
        Err("Failed to execute git worktree list: No such file".to_string())
    );
}

#[test]
fn an_unfitting_reply_changes_nothing() {
    let q = list_worktrees().advance(Reply::Exists { present: true });
    assert_eq!(q, Worktrees::Listing);
    assert_eq!(q.finish(), None);
}
