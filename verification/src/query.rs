//! The queries that one run of git answers: for each, the arguments to run
//! git with, and what to make of how the run ended.

use vstd::prelude::*;
use vstd::string::StringExecFns;
use crate::git::{result_text, Outcome, OutcomeView};
use crate::history::{
    branch_list, commit_log, parse_branch_list, parse_commit_log, BranchInfo, CommitInfo,
};
use crate::number::{decimal, parse_i64, push_decimal, signed_i64};
use crate::split::{lines, split_lines};
use crate::status::{parse_porcelain_status, porcelain_status, GitFile};
use crate::text::{chars_of, pieces, string_of, trim, trimmed, views};

verus! {

/// `s` without the white space at both ends.
pub fn trimmed_string(s: &str) -> (t: String)
    ensures
        t@ == trimmed(s@),
{
    let text = chars_of(s);
    string_of(trim(text.as_slice()))
}

/// Keeps a line that is not empty.
pub open spec fn keep_nonempty() -> spec_fn(Seq<char>) -> Option<Seq<char>> {
    |line: Seq<char>|
        if line.len() > 0 {
            Some(line)
        } else {
            None
        }
}

/// Keeps a line that holds more than white space.
pub open spec fn keep_nonblank() -> spec_fn(Seq<char>) -> Option<Seq<char>> {
    |line: Seq<char>|
        if trimmed(line).len() > 0 {
            Some(line)
        } else {
            None
        }
}

/// The lines of `text` that are not empty.
pub open spec fn nonempty_lines(text: Seq<char>) -> Seq<Seq<char>> {
    lines(text).filter_map(keep_nonempty())
}

/// The lines of `text` that hold more than white space.
pub open spec fn nonblank_lines(text: Seq<char>) -> Seq<Seq<char>> {
    lines(text).filter_map(keep_nonblank())
}

/// The lines of `text` that are not empty.
pub fn lines_with_text(text: &str) -> (v: Vec<String>)
    ensures
        views(v@) == nonempty_lines(text@),
{
    let chars = chars_of(text);
    let ls = split_lines(chars.as_slice());
    let mut v: Vec<String> = Vec::new();
    let ghost f = keep_nonempty();
    for i in 0..ls.len()
        invariant
            pieces(ls@) == lines(text@),
            f == keep_nonempty(),
            views(v@) == pieces(ls@).take(i as int).filter_map(f),
    {
        proof {
            pieces(ls@).lemma_filter_map_take_succ(f, i as int);
        }
        let ghost before = views(v@);
        if ls[i].len() > 0 {
            v.push(string_of(ls[i]));
            assert(views(v@) == before.push(ls@[i as int]@));
        }
    }
    assert(pieces(ls@).take(ls.len() as int) == pieces(ls@));
    v
}

/// The lines of `text` that hold more than white space.
pub fn lines_with_ink(text: &str) -> (v: Vec<String>)
    ensures
        views(v@) == nonblank_lines(text@),
{
    let chars = chars_of(text);
    let ls = split_lines(chars.as_slice());
    let mut v: Vec<String> = Vec::new();
    let ghost f = keep_nonblank();
    for i in 0..ls.len()
        invariant
            pieces(ls@) == lines(text@),
            f == keep_nonblank(),
            views(v@) == pieces(ls@).take(i as int).filter_map(f),
    {
        proof {
            pieces(ls@).lemma_filter_map_take_succ(f, i as int);
        }
        let ghost before = views(v@);
        if trim(ls[i]).len() > 0 {
            v.push(string_of(ls[i]));
            assert(views(v@) == before.push(ls@[i as int]@));
        }
    }
    assert(pieces(ls@).take(ls.len() as int) == pieces(ls@));
    v
}

/// The arguments that show the changes of one file, staged or not.
pub fn get_file_diff_command(file_path: &str, staged: bool) -> (args: Vec<String>)
    ensures
        views(args@) == if staged {
            seq!["diff"@, "--no-color"@, "--staged"@, file_path@]
        } else {
            seq!["diff"@, "--no-color"@, file_path@]
        },
{
    let mut args: Vec<String> = vec!["diff".to_owned(), "--no-color".to_owned()];
    if staged {
        args.push("--staged".to_owned());
    }
    args.push(file_path.to_owned());
    assert(views(args@) == if staged {
        seq!["diff"@, "--no-color"@, "--staged"@, file_path@]
    } else {
        seq!["diff"@, "--no-color"@, file_path@]
    });
    args
}

/// The diff of one file: what git printed.
pub fn get_file_diff(outcome: Outcome) -> (r: Result<String, String>)
    ensures
        result_text(r) == outcome@.checked("Failed to get file diff"@),
{
    outcome.check("Failed to get file diff")
}

/// The arguments that print the file `file_path` as it is at `git_ref`.
pub fn get_file_at_ref_command(git_ref: &str, file_path: &str) -> (args: Vec<String>)
    ensures
        views(args@) == seq!["show"@, git_ref@ + ":"@ + file_path@],
{
    let mut spec = git_ref.to_owned();
    spec.append(":");
    spec.append(file_path);
    let args: Vec<String> = vec!["show".to_owned(), spec];
    assert(views(args@) == seq!["show"@, git_ref@ + ":"@ + file_path@]);
    args
}

/// The content of a file at a ref: what git printed.
pub fn get_file_at_ref(outcome: Outcome) -> (r: Result<String, String>)
    ensures
        result_text(r) == outcome@.checked("Failed to execute git show"@),
{
    outcome.check("Failed to execute git show")
}

/// The arguments that list the files of the tree at `git_ref`.
pub fn list_files_at_ref_command(git_ref: &str) -> (args: Vec<String>)
    ensures
        views(args@) == seq!["ls-tree"@, "-r"@, "--name-only"@, git_ref@],
{
    let args: Vec<String> = vec![
        "ls-tree".to_owned(),
        "-r".to_owned(),
        "--name-only".to_owned(),
        git_ref.to_owned(),
    ];
    assert(views(args@) == seq!["ls-tree"@, "-r"@, "--name-only"@, git_ref@]);
    args
}

/// The files of a tree: the lines that git printed, empty ones left out.
pub fn list_files_at_ref(outcome: Outcome) -> (r: Result<Vec<String>, String>)
    ensures
        match outcome@.checked("Failed to execute git ls-tree"@) {
            Ok(text) => r matches Ok(files) && views(files@) == nonempty_lines(text),
            Err(message) => r matches Err(m) && m@ == message,
        },
{
    match outcome.check("Failed to execute git ls-tree") {
        Ok(text) => Ok(lines_with_text(text.as_str())),
        Err(m) => Err(m),
    }
}

/// The arguments that list the last `limit` commits, one line of six fields
/// for each.
pub fn list_commits_command(limit: u32) -> (args: Vec<String>)
    ensures
        views(args@) == seq![
            "log"@,
            "--oneline"@,
            "--format=%H|%h|%s|%an|%ar|%D"@,
            "-"@ + decimal(limit as nat),
        ],
{
    let mut count = "-".to_owned();
    push_decimal(&mut count, limit as u64);
    let args: Vec<String> = vec![
        "log".to_owned(),
        "--oneline".to_owned(),
        "--format=%H|%h|%s|%an|%ar|%D".to_owned(),
        count,
    ];
    assert(views(args@) == seq![
        "log"@,
        "--oneline"@,
        "--format=%H|%h|%s|%an|%ar|%D"@,
        "-"@ + decimal(limit as nat),
    ]);
    args
}

/// The recent commits: the log that git printed, parsed.
pub fn list_commits(outcome: Outcome) -> (r: Result<Vec<CommitInfo>, String>)
    ensures
        match outcome@.checked("Failed to execute git log"@) {
            Ok(text) => r matches Ok(commits) && views(commits@) == commit_log(text),
            Err(message) => r matches Err(m) && m@ == message,
        },
{
    match outcome.check("Failed to execute git log") {
        Ok(text) => Ok(parse_commit_log(text.as_str())),
        Err(m) => Err(m),
    }
}

/// The arguments that list the local and remote branches, one line of five
/// fields for each.
pub fn list_branches_command() -> (args: Vec<String>)
    ensures
        views(args@) == seq![
            "branch"@,
            "-a"@,
            "--format=%(refname:short)|%(objectname:short)|%(subject)|%(authorname)|%(committerdate:relative)"@,
        ],
{
    let args: Vec<String> = vec![
        "branch".to_owned(),
        "-a".to_owned(),
        "--format=%(refname:short)|%(objectname:short)|%(subject)|%(authorname)|%(committerdate:relative)".to_owned(),
    ];
    assert(views(args@) == seq![
        "branch"@,
        "-a"@,
        "--format=%(refname:short)|%(objectname:short)|%(subject)|%(authorname)|%(committerdate:relative)"@,
    ]);
    args
}

/// The branches: the listing that git printed, parsed.
pub fn list_branches(outcome: Outcome) -> (r: Result<Vec<BranchInfo>, String>)
    ensures
        match outcome@.checked("Failed to execute git branch"@) {
            Ok(text) => r matches Ok(branches) && views(branches@) == branch_list(text),
            Err(message) => r matches Err(m) && m@ == message,
        },
{
    match outcome.check("Failed to execute git branch") {
        Ok(text) => Ok(parse_branch_list(text.as_str())),
        Err(m) => Err(m),
    }
}

/// The arguments that show the changes of the one commit `hash`.
pub fn get_gg_entry_diff_command(hash: &str) -> (args: Vec<String>)
    ensures
        views(args@) == seq!["show"@, hash@, "--format="@, "--no-color"@],
{
    let args: Vec<String> = vec![
        "show".to_owned(),
        hash.to_owned(),
        "--format=".to_owned(),
        "--no-color".to_owned(),
    ];
    assert(views(args@) == seq!["show"@, hash@, "--format="@, "--no-color"@]);
    args
}

/// The diff of one commit of a stack: what git printed.
pub fn get_gg_entry_diff(outcome: Outcome) -> (r: Result<String, String>)
    ensures
        result_text(r) == outcome@.checked("Failed to get entry diff"@),
{
    outcome.check("Failed to get entry diff")
}

/// The arguments that print the top directory of the repository.
pub fn get_git_root_command() -> (args: Vec<String>)
    ensures
        views(args@) == seq!["rev-parse"@, "--show-toplevel"@],
{
    let args: Vec<String> = vec!["rev-parse".to_owned(), "--show-toplevel".to_owned()];
    assert(views(args@) == seq!["rev-parse"@, "--show-toplevel"@]);
    args
}

/// What git printed when it ran and reported success, without the white
/// space at its ends.
pub open spec fn answer(outcome: OutcomeView) -> Option<Seq<char>> {
    match outcome {
        OutcomeView::Exited { success, stdout, stderr } => if success {
            Some(trimmed(stdout))
        } else {
            None
        },
        OutcomeView::NotStarted { reason } => None,
    }
}

fn read_answer(outcome: &Outcome) -> (r: Option<String>)
    ensures
        crate::stack::text_of(r) == answer(outcome@),
{
    match outcome {
        Outcome::Exited { success, stdout, stderr } => if *success {
            Some(trimmed_string(stdout.as_str()))
        } else {
            None
        },
        Outcome::NotStarted { reason } => None,
    }
}

/// The top directory of the repository, where git names one.
pub fn get_git_root(outcome: &Outcome) -> (root: Option<String>)
    ensures
        crate::stack::text_of(root) == answer(outcome@),
{
    read_answer(outcome)
}

/// The arguments that print the value of the configuration key `key`.
pub fn get_git_config_command(key: &str) -> (args: Vec<String>)
    ensures
        views(args@) == seq!["config"@, key@],
{
    let args: Vec<String> = vec!["config".to_owned(), key.to_owned()];
    assert(views(args@) == seq!["config"@, key@]);
    args
}

/// The value of a configuration key, where git has one.
pub fn get_git_config(outcome: &Outcome) -> (value: Option<String>)
    ensures
        crate::stack::text_of(value) == answer(outcome@),
{
    read_answer(outcome)
}

/// The arguments that print the time of the last commit, in seconds since
/// 1970.
pub fn last_commit_timestamp_command() -> (args: Vec<String>)
    ensures
        views(args@) == seq!["log"@, "-1"@, "--format=%ct"@],
{
    let args: Vec<String> = vec!["log".to_owned(), "-1".to_owned(), "--format=%ct".to_owned()];
    assert(views(args@) == seq!["log"@, "-1"@, "--format=%ct"@]);
    args
}

/// The time that a run of git gives for the last commit: the number it
/// printed, and 0 where it printed none, failed or could not be started.
pub open spec fn timestamp(outcome: OutcomeView) -> i64 {
    match answer(outcome) {
        Some(text) => match signed_i64(text) {
            Some(t) => t,
            None => 0,
        },
        None => 0,
    }
}

/// The time of the last commit, or 0.
pub fn last_commit_timestamp(outcome: &Outcome) -> (t: i64)
    ensures
        t == timestamp(outcome@),
{
    match outcome {
        Outcome::Exited { success, stdout, stderr } => if *success {
            let text = chars_of(stdout.as_str());
            match parse_i64(trim(text.as_slice())) {
                Some(t) => t,
                None => 0,
            }
        } else {
            0
        },
        Outcome::NotStarted { reason } => 0,
    }
}

/// The arguments that list the status of every changed file, untracked ones
/// included one by one.
pub fn get_changed_files_command() -> (args: Vec<String>)
    ensures
        views(args@) == seq!["status"@, "--porcelain"@, "-uall"@],
{
    let args: Vec<String> = vec![
        "status".to_owned(),
        "--porcelain".to_owned(),
        "-uall".to_owned(),
    ];
    assert(views(args@) == seq!["status"@, "--porcelain"@, "-uall"@]);
    args
}

/// The changed files: the status that git printed, parsed.
pub fn get_changed_files(outcome: Outcome, staged: bool) -> (r: Result<Vec<GitFile>, String>)
    ensures
        match outcome@.checked("Failed to get changed files"@) {
            Ok(text) => r matches Ok(files) && views(files@) == porcelain_status(text, staged),
            Err(message) => r matches Err(m) && m@ == message,
        },
{
    match outcome.check("Failed to get changed files") {
        Ok(text) => Ok(parse_porcelain_status(text.as_str(), staged)),
        Err(m) => Err(m),
    }
}

/// The arguments that list the files that git neither tracks nor ignores.
pub fn get_untracked_files_command() -> (args: Vec<String>)
    ensures
        views(args@) == seq!["ls-files"@, "--others"@, "--exclude-standard"@],
{
    let args: Vec<String> = vec![
        "ls-files".to_owned(),
        "--others".to_owned(),
        "--exclude-standard".to_owned(),
    ];
    assert(views(args@) == seq!["ls-files"@, "--others"@, "--exclude-standard"@]);
    args
}

/// The untracked files: the lines that git printed, blank ones left out.
pub fn get_untracked_files(outcome: Outcome) -> (r: Result<Vec<String>, String>)
    ensures
        match outcome@.checked("Failed to list untracked files"@) {
            Ok(text) => r matches Ok(files) && views(files@) == nonblank_lines(text),
            Err(message) => r matches Err(m) && m@ == message,
        },
{
    match outcome.check("Failed to list untracked files") {
        Ok(text) => Ok(lines_with_ink(text.as_str())),
        Err(m) => Err(m),
    }
}

} // verus!
