use ai_review::base::{get_branch_base, BranchBase};
use ai_review::diff::{
    get_branch_diff, get_commit_diff, get_commit_ref_diff, get_head_diff, get_range_diff,
    get_staged_diff, get_unstaged_diff, DiffQuery,
};
use ai_review::git::{FileRead, Outcome, Reply, Request};
use ai_review::status::{GitDiffResult, GitFile};

fn exited(stdout: &str) -> Reply {
    Reply::Git {
        outcome: Outcome::Exited {
            success: true,
            stdout: stdout.to_string(),
            stderr: String::new(),
        },
    }
}

fn failed(stdout: &str, stderr: &str) -> Reply {
    Reply::Git {
        outcome: Outcome::Exited {
            success: false,
            stdout: stdout.to_string(),
            stderr: stderr.to_string(),
        },
    }
}

fn not_started(reason: &str) -> Reply {
    Reply::Git { outcome: Outcome::NotStarted { reason: reason.to_string() } }
}

fn git(items: &[&str]) -> Option<Request> {
    Some(Request::Git { args: items.iter().map(|s| s.to_string()).collect() })
}

fn file(path: &str, status: &str) -> GitFile {
    GitFile { path: path.to_string(), status: status.to_string() }
}

#[test]
fn staged_diff_runs_diff_then_status() {
    let q = get_staged_diff();
    assert_eq!(q.pending(), git(&["diff", "--staged", "--no-color"]));
    let q = q.advance(exited("diff --git a/a b/a\n"));
    assert_eq!(q.pending(), git(&["status", "--porcelain", "-uall"]));
    let q = q.advance(exited("M  a\n M b\n?? c\nA  d\n"));
    assert_eq!(q.pending(), None);
    assert_eq!(
        q.finish(),
        Some(Ok(GitDiffResult {
            diff: "diff --git a/a b/a\n".to_string(),
            files: vec![file("a", "modified"), file("d", "added")],
        }))
    );
}

#[test]
fn staged_diff_fails_as_described() {
    assert_eq!(
        get_staged_diff().advance(not_started("No such file or directory")).finish(),
        Some(Err("Failed to execute git diff --staged: No such file or directory".to_string()))
    );
    assert_eq!(
        get_staged_diff().advance(failed("partial", "fatal: not a repo\n")).finish(),
        Some(Err("fatal: not a repo\n".to_string()))
    );
    assert_eq!(
        get_staged_diff().advance(exited("")).advance(not_started("gone")).finish(),
        Some(Err("Failed to get changed files: gone".to_string()))
    );
    assert_eq!(
        get_staged_diff().advance(exited("")).advance(failed("M  a\n", "fatal: status")).finish(),
        Some(Err("fatal: status".to_string()))
    );
}

#[test]
fn unstaged_diff_ends_with_the_untracked_files() {
    let q = get_unstaged_diff();
    assert_eq!(q.pending(), git(&["diff", "--no-color"]));
    let q = q.advance(exited("diff --git a/a b/a"));
    assert_eq!(q.pending(), git(&["status", "--porcelain", "-uall"]));
    let q = q.advance(exited(" M a\n?? new.txt\n?? dir/\n?? blob.bin\n"));
    assert_eq!(q.pending(), git(&["ls-files", "--others", "--exclude-standard"]));
    let q = q.advance(exited("new.txt\n   \ndir\nblob.bin\n"));
    assert_eq!(q.pending(), Some(Request::ReadFile { path: "new.txt".to_string() }));
    let q = q.advance(Reply::File { read: FileRead::Bytes { bytes: b"hello".to_vec() } });
    assert_eq!(q.pending(), Some(Request::ReadFile { path: "dir".to_string() }));
    let q = q.advance(Reply::File { read: FileRead::NotAFile });
    assert_eq!(q.pending(), Some(Request::ReadFile { path: "blob.bin".to_string() }));
    let q = q.advance(Reply::File { read: FileRead::Bytes { bytes: vec![0xc3, 0x28] } });
    assert_eq!(q.pending(), None);
    assert_eq!(
        q.finish(),
        Some(Ok(GitDiffResult {
            diff: "diff --git a/a b/a\ndiff --git a/new.txt b/new.txt\nnew file mode 100644\n--- /dev/null\n+++ b/new.txt\n@@ -0,0 +1,1 @@\n+hello\ndiff --git a/blob.bin b/blob.bin\nnew file mode 100644\nBinary file blob.bin added\n".to_string(),
            files: vec![
                file("a", "modified"),
                file("new.txt", "added"),
                file("dir/", "added"),
                file("blob.bin", "added"),
            ],
        }))
    );
}

#[test]
fn unstaged_diff_without_untracked_files_is_git_s_diff() {
    let q = get_unstaged_diff().advance(exited("the diff")).advance(exited("")).advance(exited(""));
    assert_eq!(
        q.finish(),
        Some(Ok(GitDiffResult { diff: "the diff".to_string(), files: Vec::new() }))
    );
    let q = get_unstaged_diff()
        .advance(exited("the diff"))
        .advance(exited(""))
        .advance(exited("gone\n"))
        .advance(Reply::File { read: FileRead::NotAFile });
    assert_eq!(
        q.finish(),
        Some(Ok(GitDiffResult { diff: "the diff".to_string(), files: Vec::new() }))
    );
}

#[test]
fn unstaged_diff_fails_as_described() {
    assert_eq!(
        get_unstaged_diff().advance(not_started("gone")).finish(),
        Some(Err("Failed to execute git diff: gone".to_string()))
    );
    let listed = || get_unstaged_diff().advance(exited("")).advance(exited(""));
    assert_eq!(
        listed().advance(not_started("gone")).finish(),
        Some(Err("Failed to list untracked files: gone".to_string()))
    );
    assert_eq!(listed().advance(failed("", "fatal: ls")).finish(), Some(Err("fatal: ls".to_string())));
    assert_eq!(
        listed()
            .advance(exited("a\nb\n"))
            .advance(Reply::File { read: FileRead::Unreadable { reason: "denied".to_string() } })
            .finish(),
        Some(Err("Failed to read untracked file 'a': denied".to_string()))
    );
}

#[test]
fn head_diff_names_the_commit() {
    let q = get_head_diff(0);
    assert_eq!(q.pending(), git(&["diff", "HEAD", "--no-color"]));
    let q = q.advance(exited("d"));
    assert_eq!(
        q.pending(),
        git(&["diff-tree", "--no-commit-id", "--name-status", "-r", "HEAD"])
    );

    let q = get_head_diff(12);
    assert_eq!(q.pending(), git(&["diff", "HEAD~12", "--no-color"]));
    let q = q.advance(exited("d"));
    assert_eq!(
        q.pending(),
        git(&["diff-tree", "--no-commit-id", "--name-status", "-r", "HEAD~12"])
    );
    let q = q.advance(failed("M\ta.rs\nR100\told\tnew\n", "ignored"));
    assert_eq!(
        q.finish(),
        Some(Ok(GitDiffResult {
            diff: "d".to_string(),
            files: vec![file("a.rs", "modified"), file("old", "modified")],
        }))
    );
    assert_eq!(get_head_diff(4294967295).pending(), git(&["diff", "HEAD~4294967295", "--no-color"]));
    assert_eq!(
        get_head_diff(3).advance(not_started("gone")).finish(),
        Some(Err("Failed to execute git diff HEAD~3: gone".to_string()))
    );
    assert_eq!(
        get_head_diff(3).advance(exited("")).advance(not_started("gone")).finish(),
        Some(Err("Failed to get changed files: gone".to_string()))
    );
}

#[test]
fn commit_diff_shows_one_commit() {
    let q = get_commit_diff("abc123");
    assert_eq!(q.pending(), git(&["show", "abc123", "--format=", "--no-color"]));
    let q = q.advance(exited("d"));
    assert_eq!(
        q.pending(),
        git(&["diff-tree", "--no-commit-id", "--name-status", "-r", "abc123"])
    );
    let q = q.advance(exited("A\tnew.rs\nD\told.rs\n"));
    assert_eq!(
        q.finish(),
        Some(Ok(GitDiffResult {
            diff: "d".to_string(),
            files: vec![file("new.rs", "added"), file("old.rs", "deleted")],
        }))
    );
    assert_eq!(
        get_commit_diff("x").advance(not_started("gone")).finish(),
        Some(Err("Failed to execute git show: gone".to_string()))
    );
}

#[test]
fn range_diff_checks_both_runs() {
    let q = get_range_diff("HEAD~3..HEAD");
    assert_eq!(q.pending(), git(&["diff", "--no-color", "HEAD~3..HEAD"]));
    let q = q.advance(exited("d"));
    assert_eq!(q.pending(), git(&["diff", "--name-status", "HEAD~3..HEAD"]));
    assert_eq!(
        get_range_diff("a..b").advance(exited("d")).advance(failed("M\tx\n", "fatal: bad")).finish(),
        Some(Err("fatal: bad".to_string()))
    );
    assert_eq!(
        get_range_diff("a..b").advance(not_started("gone")).finish(),
        Some(Err("Failed to execute git diff a..b: gone".to_string()))
    );
    assert_eq!(
        get_range_diff("a..b").advance(exited("d")).advance(not_started("gone")).finish(),
        Some(Err("Failed to get changed files for a..b: gone".to_string()))
    );
    assert_eq!(
        q.advance(exited("R\told\n")).finish(),
        Some(Ok(GitDiffResult { diff: "d".to_string(), files: vec![file("old", "renamed")] }))
    );
}

#[test]
fn branch_diff_prefers_main() {
    let q = get_branch_diff("feature");
    assert_eq!(q.pending(), git(&["show-ref", "--verify", "--quiet", "refs/heads/main"]));
    let q = q.advance(exited(""));
    assert_eq!(q.pending(), git(&["diff", "--no-color", "main...feature"]));
    let q = q.advance(exited("d"));
    assert_eq!(q.pending(), git(&["diff", "--name-status", "main...feature"]));
    let q = q.advance(failed("M\ta\n", "ignored"));
    assert_eq!(
        q.finish(),
        Some(Ok(GitDiffResult { diff: "d".to_string(), files: vec![file("a", "modified")] }))
    );
}

#[test]
fn branch_diff_falls_back_to_the_current_branch() {
    let q = get_branch_diff("feature").advance(failed("", ""));
    assert_eq!(q.pending(), git(&["rev-parse", "--abbrev-ref", "HEAD"]));
    let q = q.advance(exited("develop\n"));
    assert_eq!(q.pending(), git(&["diff", "--no-color", "develop...feature"]));

    let q = get_branch_diff("feature").advance(not_started("gone"));
    assert_eq!(q.pending(), git(&["rev-parse", "--abbrev-ref", "HEAD"]));
    assert_eq!(
        get_branch_diff("feature").advance(failed("", "")).advance(not_started("gone")).finish(),
        Some(Err("Failed to resolve current branch: gone".to_string()))
    );
    assert_eq!(
        get_branch_diff("feature").advance(failed("", "")).advance(failed("", "fatal: HEAD")).finish(),
        Some(Err("fatal: HEAD".to_string()))
    );
    assert_eq!(
        get_branch_diff("f").advance(exited("")).advance(not_started("gone")).finish(),
        Some(Err("Failed to execute branch diff: gone".to_string()))
    );
    assert_eq!(
        get_branch_diff("f").advance(exited("")).advance(failed("", "fatal: d")).finish(),
        Some(Err("fatal: d".to_string()))
    );
}

#[test]
fn commit_names_choose_the_query() {
    assert_eq!(get_commit_ref_diff("HEAD"), get_head_diff(0));
    assert_eq!(get_commit_ref_diff("HEAD~0"), get_head_diff(0));
    assert_eq!(get_commit_ref_diff("HEAD~2"), get_head_diff(2));
    assert_eq!(get_commit_ref_diff("HEAD~+7"), get_head_diff(7));
    assert_eq!(get_commit_ref_diff("HEAD~x"), get_head_diff(1));
    assert_eq!(get_commit_ref_diff("HEAD~"), get_head_diff(1));
    assert_eq!(get_commit_ref_diff("HEAD~-1"), get_head_diff(1));
    assert_eq!(get_commit_ref_diff("HEAD~4294967296"), get_head_diff(1));
    assert_eq!(get_commit_ref_diff("HEAD~4294967295"), get_head_diff(4294967295));
    assert_eq!(get_commit_ref_diff("abc123"), get_commit_diff("abc123"));
    assert_eq!(get_commit_ref_diff("HEAD^"), get_commit_diff("HEAD^"));
    assert_eq!(get_commit_ref_diff(""), get_commit_diff(""));
}

#[test]
fn a_diff_query_ignores_what_it_did_not_ask_for() {
    let q = get_staged_diff().advance(Reply::Exists { present: true });
    assert_eq!(q, get_staged_diff());
    assert_eq!(q.finish(), None);
    let q = get_unstaged_diff().advance(exited("")).advance(exited("")).advance(exited("a\n"));
    let again = get_unstaged_diff().advance(exited("")).advance(exited("")).advance(exited("a\n"));
    assert_eq!(q.advance(exited("x")), again);
    let done = DiffQuery::Done { result: Err("e".to_string()) };
    assert_eq!(done.advance(exited("x")), DiffQuery::Done { result: Err("e".to_string()) });
}

#[test]
fn branch_base_is_the_merge_base() {
    let q = get_branch_base("feature");
    assert_eq!(q.pending(), git(&["show-ref", "--verify", "--quiet", "refs/heads/main"]));
    let q = q.advance(exited(""));
    assert_eq!(q.pending(), git(&["merge-base", "main", "feature"]));
    let q = q.advance(exited("0123abcd\n"));
    assert_eq!(q.pending(), None);
    assert_eq!(q.finish(), Some(Ok("0123abcd".to_string())));
}

#[test]
fn branch_base_falls_back_to_the_name() {
    let q = get_branch_base("feature").advance(failed("", "")).advance(exited(" develop \n"));
    assert_eq!(q.pending(), git(&["merge-base", "develop", "feature"]));
    assert_eq!(
        q.advance(failed("junk", "fatal: no merge base")).finish(),
        Some(Ok("develop".to_string()))
    );
    assert_eq!(
        get_branch_base("f").advance(exited("")).advance(not_started("gone")).finish(),
        Some(Err("Failed to find merge-base: gone".to_string()))
    );
    assert_eq!(
        get_branch_base("f").advance(not_started("x")).advance(not_started("gone")).finish(),
        Some(Err("Failed to resolve current branch: gone".to_string()))
    );
    assert_eq!(
        get_branch_base("f").advance(failed("", "")).advance(failed("", "fatal: HEAD")).finish(),
        Some(Err("fatal: HEAD".to_string()))
    );
    let q = get_branch_base("f").advance(Reply::Exists { present: false });
    assert_eq!(q, BranchBase::ProbeMain { branch: "f".to_string() });
}
