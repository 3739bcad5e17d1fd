use ai_review::files::{list_files_command, passes_over, tracked_files};
use ai_review::git::{is_git_repo, DotGit, Outcome};
use ai_review::query::{
    get_changed_files, get_changed_files_command, get_file_at_ref, get_file_at_ref_command,
    get_file_diff, get_file_diff_command, get_gg_entry_diff, get_gg_entry_diff_command,
    get_git_config, get_git_config_command, get_git_root, get_git_root_command,
    get_untracked_files, get_untracked_files_command, last_commit_timestamp,
    last_commit_timestamp_command, list_branches, list_branches_command, list_commits,
    list_commits_command, list_files_at_ref, list_files_at_ref_command,
};

fn exited(stdout: &str) -> Outcome {
    Outcome::Exited { success: true, stdout: stdout.to_string(), stderr: String::new() }
}

fn failed(stdout: &str, stderr: &str) -> Outcome {
    Outcome::Exited { success: false, stdout: stdout.to_string(), stderr: stderr.to_string() }
}

fn not_started(reason: &str) -> Outcome {
    Outcome::NotStarted { reason: reason.to_string() }
}

#[test]
fn commands_are_spelled_out() {
    assert_eq!(get_file_diff_command("a b.rs", false), vec!["diff", "--no-color", "a b.rs"]);
    assert_eq!(
        get_file_diff_command("a.rs", true),
        vec!["diff", "--no-color", "--staged", "a.rs"]
    );
    assert_eq!(get_file_at_ref_command("HEAD~1", "src/a.rs"), vec!["show", "HEAD~1:src/a.rs"]);
    assert_eq!(
        list_files_at_ref_command("main"),
        vec!["ls-tree", "-r", "--name-only", "main"]
    );
    assert_eq!(
        list_commits_command(50),
        vec!["log", "--oneline", "--format=%H|%h|%s|%an|%ar|%D", "-50"]
    );
    assert_eq!(list_commits_command(0)[3], "-0");
    assert_eq!(list_commits_command(u32::MAX)[3], "-4294967295");
    assert_eq!(
        list_branches_command(),
        vec![
            "branch",
            "-a",
            "--format=%(refname:short)|%(objectname:short)|%(subject)|%(authorname)|%(committerdate:relative)"
        ]
    );
    assert_eq!(
        get_gg_entry_diff_command("abc"),
        vec!["show", "abc", "--format=", "--no-color"]
    );
    assert_eq!(get_git_root_command(), vec!["rev-parse", "--show-toplevel"]);
    assert_eq!(get_git_config_command("user.name"), vec!["config", "user.name"]);
    assert_eq!(last_commit_timestamp_command(), vec!["log", "-1", "--format=%ct"]);
    assert_eq!(get_changed_files_command(), vec!["status", "--porcelain", "-uall"]);
    assert_eq!(
        get_untracked_files_command(),
        vec!["ls-files", "--others", "--exclude-standard"]
    );
    assert_eq!(list_files_command(), vec!["ls-files"]);
}

#[test]
fn text_queries_give_what_git_printed() {
    assert_eq!(get_file_diff(exited("d\n")), Ok("d\n".to_string()));
    assert_eq!(get_file_diff(failed("d", "fatal: x")), Err("fatal: x".to_string()));
    assert_eq!(
        get_file_diff(not_started("gone")),
        Err("Failed to get file diff: gone".to_string())
    );
    assert_eq!(get_file_at_ref(exited("content")), Ok("content".to_string()));
    assert_eq!(
        get_file_at_ref(not_started("gone")),
        Err("Failed to execute git show: gone".to_string())
    );
    assert_eq!(get_file_at_ref(failed("", "fatal: path")), Err("fatal: path".to_string()));
    assert_eq!(get_gg_entry_diff(exited("d")), Ok("d".to_string()));
    assert_eq!(
        get_gg_entry_diff(not_started("gone")),
        Err("Failed to get entry diff: gone".to_string())
    );
    assert_eq!(get_gg_entry_diff(failed("", "fatal: bad object")), Err("fatal: bad object".to_string()));
}

#[test]
fn listings_are_read_line_by_line() {
    assert_eq!(
        list_files_at_ref(exited("a.rs\n\nsrc/b.rs\r\n  \n")),
        Ok(vec!["a.rs".to_string(), "src/b.rs".to_string(), "  ".to_string()])
    );
    assert_eq!(
        list_files_at_ref(not_started("gone")),
        Err("Failed to execute git ls-tree: gone".to_string())
    );
    assert_eq!(list_files_at_ref(failed("a\n", "fatal: ref")), Err("fatal: ref".to_string()));
    assert_eq!(
        get_untracked_files(exited("a.rs\n\n  \n b.rs \n")),
        Ok(vec!["a.rs".to_string(), " b.rs ".to_string()])
    );
    assert_eq!(
        get_untracked_files(not_started("gone")),
        Err("Failed to list untracked files: gone".to_string())
    );
    let commits = list_commits(exited("abc123|abc1|First commit|Alice|1 day ago|HEAD -> main\n")).unwrap();
    assert_eq!(commits.len(), 1);
    assert_eq!(commits[0].author, "Alice");
    assert_eq!(list_commits(failed("", "fatal: log")).unwrap_err(), "fatal: log");
    assert_eq!(
        list_commits(not_started("gone")).unwrap_err(),
        "Failed to execute git log: gone"
    );
    let branches = list_branches(exited("main|abc1234|Initial commit|Alice|2 days ago\n")).unwrap();
    assert_eq!(branches.len(), 1);
    assert_eq!(branches[0].name, "main");
    assert_eq!(
        list_branches(not_started("gone")).unwrap_err(),
        "Failed to execute git branch: gone"
    );
    let files = get_changed_files(exited("M  a\n M b\n"), true).unwrap();
    assert_eq!(files.len(), 1);
    assert_eq!(files[0].path, "a");
    assert_eq!(get_changed_files(exited("M  a\n M b\n"), false).unwrap().len(), 2);
    assert_eq!(
        get_changed_files(not_started("gone"), false).unwrap_err(),
        "Failed to get changed files: gone"
    );
}

#[test]
fn answers_are_trimmed() {
    assert_eq!(get_git_root(&exited("/home/me/repo\n")), Some("/home/me/repo".to_string()));
    assert_eq!(get_git_root(&failed("/x\n", "fatal")), None);
    assert_eq!(get_git_root(&not_started("gone")), None);
    assert_eq!(get_git_config(&exited(" Alice \n")), Some("Alice".to_string()));
    assert_eq!(get_git_config(&failed("", "")), None);
}

#[test]
fn timestamps_are_numbers_or_zero() {
    assert_eq!(last_commit_timestamp(&exited("1700000000\n")), 1700000000);
    assert_eq!(last_commit_timestamp(&exited("  42  ")), 42);
    assert_eq!(last_commit_timestamp(&exited("+42")), 42);
    assert_eq!(last_commit_timestamp(&exited("-42")), -42);
    assert_eq!(last_commit_timestamp(&exited("007")), 7);
    assert_eq!(last_commit_timestamp(&exited("9223372036854775807")), i64::MAX);
    assert_eq!(last_commit_timestamp(&exited("-9223372036854775808")), i64::MIN);
    assert_eq!(last_commit_timestamp(&exited("9223372036854775808")), 0);
    assert_eq!(last_commit_timestamp(&exited("-9223372036854775809")), 0);
    assert_eq!(last_commit_timestamp(&exited("99999999999999999999999999")), 0);
    assert_eq!(last_commit_timestamp(&exited("")), 0);
    assert_eq!(last_commit_timestamp(&exited("12 34")), 0);
    assert_eq!(last_commit_timestamp(&exited("1.5")), 0);
    assert_eq!(last_commit_timestamp(&exited("+")), 0);
    assert_eq!(last_commit_timestamp(&exited("-")), 0);
    assert_eq!(last_commit_timestamp(&exited("+-1")), 0);
    assert_eq!(last_commit_timestamp(&failed("1700000000\n", "")), 0);
    assert_eq!(last_commit_timestamp(&not_started("gone")), 0);
}

#[test]
fn test_is_git_repo_true() {
    assert!(is_git_repo(&DotGit::Directory));
    assert!(is_git_repo(&DotGit::File { content: None }));
    assert!(is_git_repo(&DotGit::Other));
}

#[test]
fn test_is_git_repo_false() {
    assert!(!is_git_repo(&DotGit::Missing));
}

#[test]
fn tracked_files_come_from_git() {
    assert_eq!(
        tracked_files(&exited("a.rs\n  src/b.rs  \n\n   \n")),
        Some(vec!["a.rs".to_string(), "src/b.rs".to_string()])
    );
    assert_eq!(tracked_files(&exited("")), Some(Vec::new()));
    assert_eq!(tracked_files(&failed("a.rs\n", "fatal")), None);
    assert_eq!(tracked_files(&not_started("gone")), None);
}

#[test]
fn a_walk_passes_over_hidden_and_built_entries() {
    assert!(passes_over(".git"));
    assert!(passes_over(".hidden.txt"));
    assert!(passes_over("."));
    assert!(passes_over("node_modules"));
    assert!(passes_over("target"));
    assert!(passes_over("dist"));
    assert!(!passes_over("visible.txt"));
    assert!(!passes_over("package.json"));
    assert!(!passes_over("targets"));
    assert!(!passes_over("Dist"));
    assert!(!passes_over(""));
    assert!(!passes_over("a.b"));
}
