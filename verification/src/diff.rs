//! Diff queries. Each takes several runs of git, one after the other: the
//! diff's text first, then the list of the files it touches. A query says
//! what to do next and takes what came of it, until it holds its answer.

use vstd::prelude::*;
use vstd::string::StringExecFns;
use crate::git::{
    copy_strings, not_started, FileRead, FileReadView, OutcomeView, Reply, ReplyView, Request,
    RequestView,
};
use crate::number::{decimal, parse_unsigned, push_decimal, unsigned_within};
use crate::query::{
    get_changed_files_command, get_untracked_files, get_untracked_files_command, nonblank_lines,
    trimmed_string,
};
use crate::status::{
    name_status, parse_file_status, parse_porcelain_status, porcelain_status, DiffRecord,
    FileRecord, GitDiffResult, GitFile,
};
use crate::text::{chars_of, strip_prefix, trimmed, views, without_prefix};
use crate::untracked::{
    append_untracked, build_untracked_file_diff, untracked_file_diff, with_untracked,
};

verus! {

/// The format of a listing of changed files.
#[derive(Debug, Clone, Copy, PartialEq, Eq)]
pub enum Listing {
    /// The porcelain status of the working tree, read for the staged files or
    /// for all of them.
    Porcelain { staged: bool },
    /// A name-status listing.
    NameStatus,
}

/// The two commands of a diff query.
#[derive(Debug, PartialEq, Eq)]
pub struct DiffPlan {
    /// The arguments that print the diff.
    pub diff: Vec<String>,
    /// What to say where that command cannot be started.
    pub diff_context: String,
    /// The arguments that list the changed files.
    pub files: Vec<String>,
    /// What to say where that command cannot be started.
    pub files_context: String,
    /// Whether the second command must report success.
    pub files_checked: bool,
    /// The format of the second command's output.
    pub listing: Listing,
    /// Whether the untracked files are shown as well.
    pub untracked: bool,
}

/// What a `DiffPlan` holds.
pub struct PlanView {
    pub diff: Seq<Seq<char>>,
    pub diff_context: Seq<char>,
    pub files: Seq<Seq<char>>,
    pub files_context: Seq<char>,
    pub files_checked: bool,
    pub listing: Listing,
    pub untracked: bool,
}

impl View for DiffPlan {
    type V = PlanView;

    open spec fn view(&self) -> PlanView {
        PlanView {
            diff: views(self.diff@),
            diff_context: self.diff_context@,
            files: views(self.files@),
            files_context: self.files_context@,
            files_checked: self.files_checked,
            listing: self.listing,
            untracked: self.untracked,
        }
    }
}

/// A diff query under way.
#[derive(Debug, PartialEq, Eq)]
pub enum DiffQuery {
    /// A branch is to be compared; whether the branch `main` exists is asked.
    ProbeMain { branch: String },
    /// A branch is to be compared and there is no `main`; the name of the
    /// current branch is asked.
    ResolveHead { branch: String },
    /// The diff is asked.
    Diff { plan: DiffPlan },
    /// The diff is here; the changed files are asked.
    Files { plan: DiffPlan, diff: String },
    /// Diff and files are here; the untracked files are asked.
    Untracked { diff: String, files: Vec<GitFile> },
    /// The untracked file `current` is being read. `synthetic` holds the diffs
    /// of those before it, and `later[next..]` are those still to come.
    Reading {
        diff: String,
        files: Vec<GitFile>,
        synthetic: String,
        current: String,
        later: Vec<String>,
        next: usize,
    },
    /// The answer.
    Done { result: Result<GitDiffResult, String> },
}

/// What a `DiffQuery` holds.
pub enum DiffQueryView {
    ProbeMain { branch: Seq<char> },
    ResolveHead { branch: Seq<char> },
    Diff { plan: PlanView },
    Files { plan: PlanView, diff: Seq<char> },
    Untracked { diff: Seq<char>, files: Seq<FileRecord> },
    Reading {
        diff: Seq<char>,
        files: Seq<FileRecord>,
        synthetic: Seq<char>,
        current: Seq<char>,
        later: Seq<Seq<char>>,
        next: usize,
    },
    Done { result: Result<DiffRecord, Seq<char>> },
}

/// What the answer of a diff query holds.
pub open spec fn diff_result_view(r: Result<GitDiffResult, String>) -> Result<
    DiffRecord,
    Seq<char>,
> {
    match r {
        Ok(d) => Ok(d@),
        Err(m) => Err(m@),
    }
}

impl View for DiffQuery {
    type V = DiffQueryView;

    open spec fn view(&self) -> DiffQueryView {
        match self {
            DiffQuery::ProbeMain { branch } => DiffQueryView::ProbeMain { branch: branch@ },
            DiffQuery::ResolveHead { branch } => DiffQueryView::ResolveHead { branch: branch@ },
            DiffQuery::Diff { plan } => DiffQueryView::Diff { plan: plan@ },
            DiffQuery::Files { plan, diff } => DiffQueryView::Files { plan: plan@, diff: diff@ },
            DiffQuery::Untracked { diff, files } => DiffQueryView::Untracked {
                diff: diff@,
                files: views(files@),
            },
            DiffQuery::Reading { diff, files, synthetic, current, later, next } => {
                DiffQueryView::Reading {
                    diff: diff@,
                    files: views(files@),
                    synthetic: synthetic@,
                    current: current@,
                    later: views(later@),
                    next: *next,
                }
            },
            DiffQuery::Done { result } => DiffQueryView::Done { result: diff_result_view(*result) },
        }
    }
}

/// The plan for the changes of the working tree that are not staged,
/// untracked files included.
pub open spec fn unstaged_plan() -> PlanView {
    PlanView {
        diff: seq!["diff"@, "--no-color"@],
        diff_context: "Failed to execute git diff"@,
        files: seq!["status"@, "--porcelain"@, "-uall"@],
        files_context: "Failed to get changed files"@,
        files_checked: true,
        listing: Listing::Porcelain { staged: false },
        untracked: true,
    }
}

/// The plan for the staged changes.
pub open spec fn staged_plan() -> PlanView {
    PlanView {
        diff: seq!["diff"@, "--staged"@, "--no-color"@],
        diff_context: "Failed to execute git diff --staged"@,
        files: seq!["status"@, "--porcelain"@, "-uall"@],
        files_context: "Failed to get changed files"@,
        files_checked: true,
        listing: Listing::Porcelain { staged: true },
        untracked: false,
    }
}

/// The name of the commit `n` steps before the head: `HEAD` for 0, else
/// `HEAD~n`.
pub open spec fn head_ref(n: u32) -> Seq<char> {
    if n == 0 {
        "HEAD"@
    } else {
        "HEAD~"@ + decimal(n as nat)
    }
}

/// The plan for the changes since the commit `n` steps before the head. The
/// files are those of that commit.
pub open spec fn head_plan(n: u32) -> PlanView {
    PlanView {
        diff: seq!["diff"@, head_ref(n), "--no-color"@],
        diff_context: "Failed to execute git diff "@ + head_ref(n),
        files: seq!["diff-tree"@, "--no-commit-id"@, "--name-status"@, "-r"@, head_ref(n)],
        files_context: "Failed to get changed files"@,
        files_checked: false,
        listing: Listing::NameStatus,
        untracked: false,
    }
}

/// The plan for the changes of the one commit `hash`.
pub open spec fn commit_plan(hash: Seq<char>) -> PlanView {
    PlanView {
        diff: seq!["show"@, hash, "--format="@, "--no-color"@],
        diff_context: "Failed to execute git show"@,
        files: seq!["diff-tree"@, "--no-commit-id"@, "--name-status"@, "-r"@, hash],
        files_context: "Failed to get changed files"@,
        files_checked: false,
        listing: Listing::NameStatus,
        untracked: false,
    }
}

/// The plan for the changes of the range `range`, which git is given as it
/// is.
pub open spec fn range_plan(range: Seq<char>) -> PlanView {
    PlanView {
        diff: seq!["diff"@, "--no-color"@, range],
        diff_context: "Failed to execute git diff "@ + range,
        files: seq!["diff"@, "--name-status"@, range],
        files_context: "Failed to get changed files for "@ + range,
        files_checked: true,
        listing: Listing::NameStatus,
        untracked: false,
    }
}

/// The plan for what `branch` has changed since it left `base`: the diff
/// from their common ancestor, which git writes `base...branch`.
pub open spec fn branch_plan(base: Seq<char>, branch: Seq<char>) -> PlanView {
    PlanView {
        diff: seq!["diff"@, "--no-color"@, base + "..."@ + branch],
        diff_context: "Failed to execute branch diff"@,
        files: seq!["diff"@, "--name-status"@, base + "..."@ + branch],
        files_context: "Failed to get changed files"@,
        files_checked: false,
        listing: Listing::NameStatus,
        untracked: false,
    }
}

/// The files that a listing in the format `listing` names.
pub open spec fn listed(listing: Listing, text: Seq<char>) -> Seq<FileRecord> {
    match listing {
        Listing::Porcelain { staged } => porcelain_status(text, staged),
        Listing::NameStatus => name_status(text),
    }
}

/// What to say where an untracked file cannot be read.
pub open spec fn unreadable(path: Seq<char>, reason: Seq<char>) -> Seq<char> {
    not_started("Failed to read untracked file '"@ + path + "'"@, reason)
}

/// The arguments that ask whether the branch `main` exists.
pub open spec fn probe_main_args() -> Seq<Seq<char>> {
    seq!["show-ref"@, "--verify"@, "--quiet"@, "refs/heads/main"@]
}

/// The arguments that print the name of the current branch.
pub open spec fn resolve_head_args() -> Seq<Seq<char>> {
    seq!["rev-parse"@, "--abbrev-ref"@, "HEAD"@]
}

impl DiffQueryView {
    /// What the query asks for next; nothing once it holds its answer.
    pub open spec fn pending(self) -> Option<RequestView> {
        match self {
            DiffQueryView::ProbeMain { branch } => Some(
                RequestView::Git { args: probe_main_args() },
            ),
            DiffQueryView::ResolveHead { branch } => Some(
                RequestView::Git { args: resolve_head_args() },
            ),
            DiffQueryView::Diff { plan } => Some(RequestView::Git { args: plan.diff }),
            DiffQueryView::Files { plan, diff } => Some(RequestView::Git { args: plan.files }),
            DiffQueryView::Untracked { diff, files } => Some(
                RequestView::Git { args: seq!["ls-files"@, "--others"@, "--exclude-standard"@] },
            ),
            DiffQueryView::Reading { diff, files, synthetic, current, later, next } => Some(
                RequestView::ReadFile { path: current },
            ),
            DiffQueryView::Done { result } => None,
        }
    }

    /// The query after `reply`. A reply that does not answer what the query
    /// asked for leaves it as it is.
    pub open spec fn advance(self, reply: ReplyView) -> DiffQueryView {
        match (self, reply) {
            (DiffQueryView::ProbeMain { branch }, ReplyView::Git { outcome }) => {
                if outcome.succeeded() {
                    DiffQueryView::Diff { plan: branch_plan("main"@, branch) }
                } else {
                    DiffQueryView::ResolveHead { branch }
                }
            },
            (DiffQueryView::ResolveHead { branch }, ReplyView::Git { outcome }) => {
                match outcome.checked("Failed to resolve current branch"@) {
                    Ok(text) => DiffQueryView::Diff { plan: branch_plan(trimmed(text), branch) },
                    Err(message) => DiffQueryView::Done { result: Err(message) },
                }
            },
            (DiffQueryView::Diff { plan }, ReplyView::Git { outcome }) => {
                match outcome.checked(plan.diff_context) {
                    Ok(text) => DiffQueryView::Files { plan, diff: text },
                    Err(message) => DiffQueryView::Done { result: Err(message) },
                }
            },
            (DiffQueryView::Files { plan, diff }, ReplyView::Git { outcome }) => {
                let listing = if plan.files_checked {
                    outcome.checked(plan.files_context)
                } else {
                    outcome.output(plan.files_context)
                };
                match listing {
                    Ok(text) => if plan.untracked {
                        DiffQueryView::Untracked { diff, files: listed(plan.listing, text) }
                    } else {
                        DiffQueryView::Done {
                            result: Ok(DiffRecord { diff, files: listed(plan.listing, text) }),
                        }
                    },
                    Err(message) => DiffQueryView::Done { result: Err(message) },
                }
            },
            (DiffQueryView::Untracked { diff, files }, ReplyView::Git { outcome }) => {
                match outcome.checked("Failed to list untracked files"@) {
                    Ok(text) => {
                        let names = nonblank_lines(text);
                        if names.len() == 0 {
                            DiffQueryView::Done { result: Ok(DiffRecord { diff, files }) }
                        } else {
                            DiffQueryView::Reading {
                                diff,
                                files,
                                synthetic: Seq::empty(),
                                current: names[0],
                                later: names,
                                next: 1,
                            }
                        }
                    },
                    Err(message) => DiffQueryView::Done { result: Err(message) },
                }
            },
            (
                DiffQueryView::Reading { diff, files, synthetic, current, later, next },
                ReplyView::File { read },
            ) => {
                match read {
                    FileReadView::Unreadable { reason } => DiffQueryView::Done {
                        result: Err(unreadable(current, reason)),
                    },
                    _ => {
                        let more = match read {
                            FileReadView::Bytes { bytes } => synthetic + untracked_file_diff(
                                current,
                                bytes,
                            ),
                            _ => synthetic,
                        };
                        if next < later.len() {
                            DiffQueryView::Reading {
                                diff,
                                files,
                                synthetic: more,
                                current: later[next as int],
                                later,
                                next: (next + 1) as usize,
                            }
                        } else {
                            DiffQueryView::Done {
                                result: Ok(DiffRecord { diff: with_untracked(diff, more), files }),
                            }
                        }
                    },
                }
            },
            _ => self,
        }
    }
}

fn unstaged() -> (plan: DiffPlan)
    ensures
        plan@ == unstaged_plan(),
{
    let diff: Vec<String> = vec!["diff".to_owned(), "--no-color".to_owned()];
    assert(views(diff@) == seq!["diff"@, "--no-color"@]);
    DiffPlan {
        diff,
        diff_context: "Failed to execute git diff".to_owned(),
        files: get_changed_files_command(),
        files_context: "Failed to get changed files".to_owned(),
        files_checked: true,
        listing: Listing::Porcelain { staged: false },
        untracked: true,
    }
}

fn staged() -> (plan: DiffPlan)
    ensures
        plan@ == staged_plan(),
{
    let diff: Vec<String> = vec!["diff".to_owned(), "--staged".to_owned(), "--no-color".to_owned()];
    assert(views(diff@) == seq!["diff"@, "--staged"@, "--no-color"@]);
    DiffPlan {
        diff,
        diff_context: "Failed to execute git diff --staged".to_owned(),
        files: get_changed_files_command(),
        files_context: "Failed to get changed files".to_owned(),
        files_checked: true,
        listing: Listing::Porcelain { staged: true },
        untracked: false,
    }
}

fn tree_files(commit: &str) -> (args: Vec<String>)
    ensures
        views(args@) == seq!["diff-tree"@, "--no-commit-id"@, "--name-status"@, "-r"@, commit@],
{
    let args: Vec<String> = vec![
        "diff-tree".to_owned(),
        "--no-commit-id".to_owned(),
        "--name-status".to_owned(),
        "-r".to_owned(),
        commit.to_owned(),
    ];
    assert(views(args@) == seq![
        "diff-tree"@,
        "--no-commit-id"@,
        "--name-status"@,
        "-r"@,
        commit@,
    ]);
    args
}

fn head(n: u32) -> (plan: DiffPlan)
    ensures
        plan@ == head_plan(n),
{
    let mut name = "HEAD".to_owned();
    if n != 0 {
        name = "HEAD~".to_owned();
        push_decimal(&mut name, n as u64);
    }
    assert(name@ == head_ref(n));
    let diff: Vec<String> = vec!["diff".to_owned(), name.clone(), "--no-color".to_owned()];
    assert(views(diff@) == seq!["diff"@, head_ref(n), "--no-color"@]);
    let mut context = "Failed to execute git diff ".to_owned();
    context.append(name.as_str());
    DiffPlan {
        diff,
        diff_context: context,
        files: tree_files(name.as_str()),
        files_context: "Failed to get changed files".to_owned(),
        files_checked: false,
        listing: Listing::NameStatus,
        untracked: false,
    }
}

fn commit(hash: &str) -> (plan: DiffPlan)
    ensures
        plan@ == commit_plan(hash@),
{
    let diff: Vec<String> = vec![
        "show".to_owned(),
        hash.to_owned(),
        "--format=".to_owned(),
        "--no-color".to_owned(),
    ];
    assert(views(diff@) == seq!["show"@, hash@, "--format="@, "--no-color"@]);
    DiffPlan {
        diff,
        diff_context: "Failed to execute git show".to_owned(),
        files: tree_files(hash),
        files_context: "Failed to get changed files".to_owned(),
        files_checked: false,
        listing: Listing::NameStatus,
        untracked: false,
    }
}

fn spanning(range: &str) -> (plan: DiffPlan)
    ensures
        plan@ == range_plan(range@),
{
    let diff: Vec<String> = vec!["diff".to_owned(), "--no-color".to_owned(), range.to_owned()];
    assert(views(diff@) == seq!["diff"@, "--no-color"@, range@]);
    let files: Vec<String> = vec!["diff".to_owned(), "--name-status".to_owned(), range.to_owned()];
    assert(views(files@) == seq!["diff"@, "--name-status"@, range@]);
    let mut diff_context = "Failed to execute git diff ".to_owned();
    diff_context.append(range);
    let mut files_context = "Failed to get changed files for ".to_owned();
    files_context.append(range);
    DiffPlan {
        diff,
        diff_context,
        files,
        files_context,
        files_checked: true,
        listing: Listing::NameStatus,
        untracked: false,
    }
}

fn against(base: &str, branch: &str) -> (plan: DiffPlan)
    ensures
        plan@ == branch_plan(base@, branch@),
{
    let mut dots = base.to_owned();
    dots.append("...");
    dots.append(branch);
    let diff: Vec<String> = vec!["diff".to_owned(), "--no-color".to_owned(), dots.clone()];
    assert(views(diff@) == seq!["diff"@, "--no-color"@, base@ + "..."@ + branch@]);
    let files: Vec<String> = vec!["diff".to_owned(), "--name-status".to_owned(), dots];
    assert(views(files@) == seq!["diff"@, "--name-status"@, base@ + "..."@ + branch@]);
    DiffPlan {
        diff,
        diff_context: "Failed to execute branch diff".to_owned(),
        files,
        files_context: "Failed to get changed files".to_owned(),
        files_checked: false,
        listing: Listing::NameStatus,
        untracked: false,
    }
}

/// The arguments that ask whether the branch `main` exists.
pub fn probe_main_command() -> (args: Vec<String>)
    ensures
        views(args@) == probe_main_args(),
{
    let args: Vec<String> = vec![
        "show-ref".to_owned(),
        "--verify".to_owned(),
        "--quiet".to_owned(),
        "refs/heads/main".to_owned(),
    ];
    assert(views(args@) == probe_main_args());
    args
}

/// The arguments that print the name of the current branch.
pub fn resolve_head_command() -> (args: Vec<String>)
    ensures
        views(args@) == resolve_head_args(),
{
    let args: Vec<String> = vec![
        "rev-parse".to_owned(),
        "--abbrev-ref".to_owned(),
        "HEAD".to_owned(),
    ];
    assert(views(args@) == resolve_head_args());
    args
}

/// The query for the changes that are not staged. Its diff ends with a diff
/// for each untracked file.
pub fn get_unstaged_diff() -> (q: DiffQuery)
    ensures
        q@ == (DiffQueryView::Diff { plan: unstaged_plan() }),
{
    DiffQuery::Diff { plan: unstaged() }
}

/// The query for the staged changes.
pub fn get_staged_diff() -> (q: DiffQuery)
    ensures
        q@ == (DiffQueryView::Diff { plan: staged_plan() }),
{
    DiffQuery::Diff { plan: staged() }
}

/// The query for the changes since the commit `n` steps before the head.
pub fn get_head_diff(n: u32) -> (q: DiffQuery)
    ensures
        q@ == (DiffQueryView::Diff { plan: head_plan(n) }),
{
    DiffQuery::Diff { plan: head(n) }
}

/// The query for the changes of the commit `hash`.
pub fn get_commit_diff(hash: &str) -> (q: DiffQuery)
    ensures
        q@ == (DiffQueryView::Diff { plan: commit_plan(hash@) }),
{
    DiffQuery::Diff { plan: commit(hash) }
}

/// The query for the changes of the range `range`.
pub fn get_range_diff(range: &str) -> (q: DiffQuery)
    ensures
        q@ == (DiffQueryView::Diff { plan: range_plan(range@) }),
{
    DiffQuery::Diff { plan: spanning(range) }
}

/// The query for what `branch` has changed since it left the base: `main`
/// where there is such a branch, else the current branch.
pub fn get_branch_diff(branch: &str) -> (q: DiffQuery)
    ensures
        q@ == (DiffQueryView::ProbeMain { branch: branch@ }),
{
    DiffQuery::ProbeMain { branch: branch.to_owned() }
}

/// The query that a commit named by the user stands for. `HEAD` and `HEAD~n`
/// ask for the changes since that commit, where an `n` that is no number
/// counts as 1. Every other name asks for the changes of that one commit.
pub open spec fn commit_ref_query(commit: Seq<char>) -> DiffQueryView {
    if commit == "HEAD"@ {
        DiffQueryView::Diff { plan: head_plan(0) }
    } else {
        match without_prefix(commit, "HEAD~"@) {
            Some(steps) => DiffQueryView::Diff {
                plan: head_plan(
                    match unsigned_within(steps, u32::MAX as u64) {
                        Some(n) => n as u32,
                        None => 1,
                    },
                ),
            },
            None => DiffQueryView::Diff { plan: commit_plan(commit) },
        }
    }
}

/// The query that a commit named by the user stands for.
pub fn get_commit_ref_diff(commit: &str) -> (q: DiffQuery)
    ensures
        q@ == commit_ref_query(commit@),
{
    let name = chars_of(commit);
    let head_word = chars_of("HEAD");
    let steps_key = chars_of("HEAD~");
    if crate::text::same(name.as_slice(), head_word.as_slice()) {
        return get_head_diff(0);
    }
    match strip_prefix(name.as_slice(), steps_key.as_slice()) {
        Some(steps) => {
            let n: u32 = match parse_unsigned(steps, u32::MAX as u64) {
                Some(n) => n as u32,
                None => 1,
            };
            get_head_diff(n)
        },
        None => get_commit_diff(commit),
    }
}

fn read_listing(listing: Listing, text: &str) -> (files: Vec<GitFile>)
    ensures
        views(files@) == listed(listing, text@),
{
    match listing {
        Listing::Porcelain { staged } => parse_porcelain_status(text, staged),
        Listing::NameStatus => parse_file_status(text),
    }
}

fn unreadable_file(path: &str, reason: &str) -> (m: String)
    ensures
        m@ == unreadable(path@, reason@),
{
    let mut m = "Failed to read untracked file '".to_owned();
    m.append(path);
    m.append("'");
    m.append(": ");
    m.append(reason);
    m
}

impl DiffQuery {
    /// What the query asks for next; nothing once it holds its answer.
    pub fn pending(&self) -> (r: Option<Request>)
        ensures
            match r {
                Some(request) => self@.pending() == Some(request@),
                None => self@.pending() is None,
            },
    {
        match self {
            DiffQuery::ProbeMain { branch } => Some(Request::Git { args: probe_main_command() }),
            DiffQuery::ResolveHead { branch } => Some(
                Request::Git { args: resolve_head_command() },
            ),
            DiffQuery::Diff { plan } => Some(Request::Git { args: copy_strings(&plan.diff) }),
            DiffQuery::Files { plan, diff } => Some(
                Request::Git { args: copy_strings(&plan.files) },
            ),
            DiffQuery::Untracked { diff, files } => Some(
                Request::Git { args: get_untracked_files_command() },
            ),
            DiffQuery::Reading { diff, files, synthetic, current, later, next } => Some(
                Request::ReadFile { path: current.clone() },
            ),
            DiffQuery::Done { result } => None,
        }
    }

    /// The query after `reply`.
    pub fn advance(self, reply: Reply) -> (next: DiffQuery)
        ensures
            next@ == self@.advance(reply@),
    {
        match self {
            DiffQuery::ProbeMain { branch } => match reply {
                Reply::Git { outcome } => {
                    if outcome.succeeded() {
                        DiffQuery::Diff { plan: against("main", branch.as_str()) }
                    } else {
                        DiffQuery::ResolveHead { branch }
                    }
                },
                _ => DiffQuery::ProbeMain { branch },
            },
            DiffQuery::ResolveHead { branch } => match reply {
                Reply::Git { outcome } => {
                    match outcome.check("Failed to resolve current branch") {
                        Ok(text) => {
                            let base = trimmed_string(text.as_str());
                            DiffQuery::Diff { plan: against(base.as_str(), branch.as_str()) }
                        },
                        Err(message) => DiffQuery::Done { result: Err(message) },
                    }
                },
                _ => DiffQuery::ResolveHead { branch },
            },
            DiffQuery::Diff { plan } => match reply {
                Reply::Git { outcome } => {
                    match outcome.check(plan.diff_context.as_str()) {
                        Ok(text) => DiffQuery::Files { plan, diff: text },
                        Err(message) => DiffQuery::Done { result: Err(message) },
                    }
                },
                _ => DiffQuery::Diff { plan },
            },
            DiffQuery::Files { plan, diff } => match reply {
                Reply::Git { outcome } => {
                    let listing = if plan.files_checked {
                        outcome.check(plan.files_context.as_str())
                    } else {
                        outcome.output(plan.files_context.as_str())
                    };
                    match listing {
                        Ok(text) => {
                            let files = read_listing(plan.listing, text.as_str());
                            if plan.untracked {
                                DiffQuery::Untracked { diff, files }
                            } else {
                                DiffQuery::Done { result: Ok(GitDiffResult { diff, files }) }
                            }
                        },
                        Err(message) => DiffQuery::Done { result: Err(message) },
                    }
                },
                _ => DiffQuery::Files { plan, diff },
            },
            DiffQuery::Untracked { diff, files } => match reply {
                Reply::Git { outcome } => {
                    match get_untracked_files(outcome) {
                        Ok(names) => {
                            if names.len() == 0 {
                                DiffQuery::Done { result: Ok(GitDiffResult { diff, files }) }
                            } else {
                                assert(views(names@)[0] == names@[0]@);
                                let current = names[0].clone();
                                DiffQuery::Reading {
                                    diff,
                                    files,
                                    synthetic: String::new(),
                                    current,
                                    later: names,
                                    next: 1,
                                }
                            }
                        },
                        Err(message) => DiffQuery::Done { result: Err(message) },
                    }
                },
                _ => DiffQuery::Untracked { diff, files },
            },
            DiffQuery::Reading { diff, files, synthetic, current, later, next } => match reply {
                Reply::File { read } => {
                    let mut more = synthetic;
                    match read {
                        FileRead::Unreadable { reason } => {
                            return DiffQuery::Done {
                                result: Err(unreadable_file(current.as_str(), reason.as_str())),
                            };
                        },
                        FileRead::Bytes { bytes } => {
                            let one = build_untracked_file_diff(current.as_str(), bytes);
                            more.append(one.as_str());
                        },
                        FileRead::NotAFile => {},
                    }
                    if next < later.len() {
                        assert(views(later@)[next as int] == later@[next as int]@);
                        let following = later[next].clone();
                        DiffQuery::Reading {
                            diff,
                            files,
                            synthetic: more,
                            current: following,
                            later,
                            next: next + 1,
                        }
                    } else {
                        DiffQuery::Done {
                            result: Ok(
                                GitDiffResult {
                                    diff: append_untracked(diff, more.as_str()),
                                    files,
                                },
                            ),
                        }
                    }
                },
                _ => DiffQuery::Reading { diff, files, synthetic, current, later, next },
            },
            DiffQuery::Done { result } => DiffQuery::Done { result },
        }
    }

    /// The answer, once the query holds it.
    pub fn finish(self) -> (r: Option<Result<GitDiffResult, String>>)
        ensures
            match r {
                Some(result) => self@ == (DiffQueryView::Done { result: diff_result_view(result) }),
                None => !(self@ is Done),
            },
    {
        match self {
            DiffQuery::Done { result } => Some(result),
            _ => None,
        }
    }
}

impl DiffQueryView {
    /// The query after the replies `replies`, one after the other.
    pub open spec fn run(self, replies: Seq<ReplyView>) -> DiffQueryView
        decreases replies.len(),
    {
        if replies.len() == 0 {
            self
        } else {
            self.advance(replies[0]).run(replies.drop_first())
        }
    }
}

/// What the two runs of a plan that leaves the untracked files out give: the
/// diff that the first run printed and the files that the second listed, or
/// the first error.
pub open spec fn plain_answer(plan: PlanView, first: OutcomeView, second: OutcomeView) -> Result<
    DiffRecord,
    Seq<char>,
> {
    match first.checked(plan.diff_context) {
        Ok(diff) => {
            let listing = if plan.files_checked {
                second.checked(plan.files_context)
            } else {
                second.output(plan.files_context)
            };
            match listing {
                Ok(text) => Ok(DiffRecord { diff, files: listed(plan.listing, text) }),
                Err(message) => Err(message),
            }
        },
        Err(message) => Err(message),
    }
}

/// A query that holds its answer keeps it.
pub proof fn lemma_done_stays(result: Result<DiffRecord, Seq<char>>, replies: Seq<ReplyView>)
    ensures
        (DiffQueryView::Done { result }).run(replies) == (DiffQueryView::Done { result }),
    decreases replies.len(),
{
    if replies.len() > 0 {
        lemma_done_stays(result, replies.drop_first());
    }
}

/// A query for staged changes, for a commit or for a range takes two runs of
/// git and then holds the answer that they give.
pub proof fn lemma_plain_diff(plan: PlanView, first: OutcomeView, second: OutcomeView)
    requires
        !plan.untracked,
    ensures
        (DiffQueryView::Diff { plan }).run(
            seq![ReplyView::Git { outcome: first }, ReplyView::Git { outcome: second }],
        ) == (DiffQueryView::Done { result: plain_answer(plan, first, second) }),
{
    let replies = seq![ReplyView::Git { outcome: first }, ReplyView::Git { outcome: second }];
    let rest = seq![ReplyView::Git { outcome: second }];
    assert(replies.drop_first() == rest);
    assert(rest.drop_first() == Seq::<ReplyView>::empty());
    let start = DiffQueryView::Diff { plan };
    let after_first = start.advance(replies[0]);
    assert(start.run(replies) == after_first.run(rest));
    assert(after_first.run(rest) == after_first.advance(rest[0]).run(rest.drop_first()));
    match first.checked(plan.diff_context) {
        Ok(diff) => {},
        Err(message) => {},
    }
}

/// A query for a branch compares it with `main` where the probe for that
/// branch succeeds.
pub proof fn lemma_branch_diff_against_main(
    branch: Seq<char>,
    probe: OutcomeView,
    first: OutcomeView,
    second: OutcomeView,
)
    requires
        probe.succeeded(),
    ensures
        (DiffQueryView::ProbeMain { branch }).run(
            seq![
                ReplyView::Git { outcome: probe },
                ReplyView::Git { outcome: first },
                ReplyView::Git { outcome: second },
            ],
        ) == (DiffQueryView::Done {
            result: plain_answer(branch_plan("main"@, branch), first, second),
        }),
{
    let replies = seq![
        ReplyView::Git { outcome: probe },
        ReplyView::Git { outcome: first },
        ReplyView::Git { outcome: second },
    ];
    assert(replies.drop_first() == seq![
        ReplyView::Git { outcome: first },
        ReplyView::Git { outcome: second },
    ]);
    lemma_plain_diff(branch_plan("main"@, branch), first, second);
}

/// Where the probe for `main` does not succeed, a query for a branch compares
/// it with the current branch.
pub proof fn lemma_branch_diff_against_head(
    branch: Seq<char>,
    probe: OutcomeView,
    head: OutcomeView,
    first: OutcomeView,
    second: OutcomeView,
)
    requires
        !probe.succeeded(),
    ensures
        (DiffQueryView::ProbeMain { branch }).run(
            seq![
                ReplyView::Git { outcome: probe },
                ReplyView::Git { outcome: head },
                ReplyView::Git { outcome: first },
                ReplyView::Git { outcome: second },
            ],
        ) == (DiffQueryView::Done {
            result: match head.checked("Failed to resolve current branch"@) {
                Ok(name) => plain_answer(branch_plan(trimmed(name), branch), first, second),
                Err(message) => Err(message),
            },
        }),
{
    let replies = seq![
        ReplyView::Git { outcome: probe },
        ReplyView::Git { outcome: head },
        ReplyView::Git { outcome: first },
        ReplyView::Git { outcome: second },
    ];
    let after_probe = seq![
        ReplyView::Git { outcome: head },
        ReplyView::Git { outcome: first },
        ReplyView::Git { outcome: second },
    ];
    let after_head = seq![ReplyView::Git { outcome: first }, ReplyView::Git { outcome: second }];
    assert(replies.drop_first() == after_probe);
    assert(after_probe.drop_first() == after_head);
    let start = DiffQueryView::ProbeMain { branch };
    let resolving = DiffQueryView::ResolveHead { branch };
    assert(start.run(replies) == resolving.run(after_probe));
    assert(resolving.run(after_probe) == resolving.advance(after_probe[0]).run(after_head));
    match head.checked("Failed to resolve current branch"@) {
        Ok(name) => {
            lemma_plain_diff(branch_plan(trimmed(name), branch), first, second);
        },
        Err(message) => {
            lemma_done_stays(Err(message), after_head);
        },
    }
}

/// The replies that tell of these reads.
pub open spec fn file_replies(reads: Seq<FileReadView>) -> Seq<ReplyView> {
    reads.map_values(|read: FileReadView| ReplyView::File { read })
}

/// The diffs that stand for the untracked files `names`, read as `reads`
/// tell, one after the other. What is no file is left out; a file that cannot
/// be read is an error.
pub open spec fn synthesized(names: Seq<Seq<char>>, reads: Seq<FileReadView>) -> Result<
    Seq<char>,
    Seq<char>,
>
    decreases names.len(),
{
    if names.len() == 0 || reads.len() == 0 {
        Ok(Seq::empty())
    } else {
        match reads[0] {
            FileReadView::Unreadable { reason } => Err(unreadable(names[0], reason)),
            FileReadView::Bytes { bytes } => match synthesized(
                names.drop_first(),
                reads.drop_first(),
            ) {
                Ok(rest) => Ok(untracked_file_diff(names[0], bytes) + rest),
                Err(message) => Err(message),
            },
            FileReadView::NotAFile => synthesized(names.drop_first(), reads.drop_first()),
        }
    }
}

/// What reading the untracked files adds to a diff.
pub open spec fn untracked_answer(
    diff: Seq<char>,
    files: Seq<FileRecord>,
    names: Seq<Seq<char>>,
    reads: Seq<FileReadView>,
) -> Result<DiffRecord, Seq<char>> {
    match synthesized(names, reads) {
        Ok(synthetic) => Ok(DiffRecord { diff: with_untracked(diff, synthetic), files }),
        Err(message) => Err(message),
    }
}

proof fn lemma_reading(
    diff: Seq<char>,
    files: Seq<FileRecord>,
    so_far: Seq<char>,
    names: Seq<Seq<char>>,
    i: int,
    reads: Seq<FileReadView>,
)
    requires
        0 <= i < names.len(),
        reads.len() == names.len(),
        names.len() <= usize::MAX,
    ensures
        (DiffQueryView::Reading {
            diff,
            files,
            synthetic: so_far,
            current: names[i],
            later: names,
            next: (i + 1) as usize,
        }).run(file_replies(reads.skip(i))) == (DiffQueryView::Done {
            result: match synthesized(names.skip(i), reads.skip(i)) {
                Ok(rest) => Ok(DiffRecord { diff: with_untracked(diff, so_far + rest), files }),
                Err(message) => Err(message),
            },
        }),
    decreases names.len() - i,
{
    let state = DiffQueryView::Reading {
        diff,
        files,
        synthetic: so_far,
        current: names[i],
        later: names,
        next: (i + 1) as usize,
    };
    let replies = file_replies(reads.skip(i));
    let later_replies = file_replies(reads.skip(i + 1));
    assert(replies[0] == ReplyView::File { read: reads[i] });
    assert(replies.drop_first() == later_replies);
    assert(names.skip(i)[0] == names[i]);
    assert(reads.skip(i)[0] == reads[i]);
    assert(names.skip(i).drop_first() == names.skip(i + 1));
    assert(reads.skip(i).drop_first() == reads.skip(i + 1));
    assert(state.run(replies) == state.advance(replies[0]).run(later_replies));
    match reads[i] {
        FileReadView::Unreadable { reason } => {
            lemma_done_stays(Err(unreadable(names[i], reason)), later_replies);
        },
        _ => {
            let one = match reads[i] {
                FileReadView::Bytes { bytes } => untracked_file_diff(names[i], bytes),
                _ => Seq::<char>::empty(),
            };
            let more = so_far + one;
            assert(reads[i] is NotAFile ==> more == so_far);
            if i + 1 < names.len() {
                lemma_reading(diff, files, more, names, i + 1, reads);
                match synthesized(names.skip(i + 1), reads.skip(i + 1)) {
                    Ok(rest) => {
                        assert(more + rest == so_far + (one + rest));
                        assert(reads[i] is NotAFile ==> one + rest == rest);
                    },
                    Err(message) => {},
                }
            } else {
                assert(names.skip(i + 1).len() == 0);
                assert(later_replies.len() == 0);
                assert(one + Seq::<char>::empty() == one);
            }
        },
    }
}

/// Once diff and files are here, a query for the changes that are not staged
/// lists the untracked files, reads each of them, and then holds the diff with
/// theirs behind it.
pub proof fn lemma_untracked_run(
    diff: Seq<char>,
    files: Seq<FileRecord>,
    listing: OutcomeView,
    reads: Seq<FileReadView>,
)
    requires
        listing.checked("Failed to list untracked files"@) is Ok,
        reads.len() == nonblank_lines(
            listing.checked("Failed to list untracked files"@)->Ok_0,
        ).len(),
        reads.len() <= usize::MAX,
    ensures
        (DiffQueryView::Untracked { diff, files }).run(
            seq![ReplyView::Git { outcome: listing }] + file_replies(reads),
        ) == (DiffQueryView::Done {
            result: untracked_answer(
                diff,
                files,
                nonblank_lines(listing.checked("Failed to list untracked files"@)->Ok_0),
                reads,
            ),
        }),
{
    let names = nonblank_lines(listing.checked("Failed to list untracked files"@)->Ok_0);
    let replies = seq![ReplyView::Git { outcome: listing }] + file_replies(reads);
    let state = DiffQueryView::Untracked { diff, files };
    assert(replies[0] == ReplyView::Git { outcome: listing });
    assert(replies.drop_first() == file_replies(reads));
    assert(state.run(replies) == state.advance(replies[0]).run(file_replies(reads)));
    if names.len() == 0 {
        assert(file_replies(reads).len() == 0);
    } else {
        assert(reads.skip(0) == reads);
        assert(names.skip(0) == names);
        lemma_reading(diff, files, Seq::empty(), names, 0, reads);
        match synthesized(names, reads) {
            Ok(rest) => {
                assert(Seq::<char>::empty() + rest == rest);
            },
            Err(message) => {},
        }
    }
}

/// Where its three runs of git succeed, a query for the changes that are not
/// staged holds git's diff with the diffs of the untracked files behind it,
/// and the files of the status listing, every change counted.
pub proof fn lemma_unstaged_run(
    first: OutcomeView,
    second: OutcomeView,
    listing: OutcomeView,
    reads: Seq<FileReadView>,
)
    requires
        first.checked("Failed to execute git diff"@) is Ok,
        second.checked("Failed to get changed files"@) is Ok,
        listing.checked("Failed to list untracked files"@) is Ok,
        reads.len() == nonblank_lines(
            listing.checked("Failed to list untracked files"@)->Ok_0,
        ).len(),
        reads.len() <= usize::MAX,
    ensures
        (DiffQueryView::Diff { plan: unstaged_plan() }).run(
            seq![ReplyView::Git { outcome: first }, ReplyView::Git { outcome: second }] + (seq![
                ReplyView::Git { outcome: listing },
            ] + file_replies(reads)),
        ) == (DiffQueryView::Done {
            result: untracked_answer(
                first.checked("Failed to execute git diff"@)->Ok_0,
                porcelain_status(second.checked("Failed to get changed files"@)->Ok_0, false),
                nonblank_lines(listing.checked("Failed to list untracked files"@)->Ok_0),
                reads,
            ),
        }),
{
    let tail = seq![ReplyView::Git { outcome: listing }] + file_replies(reads);
    let replies = seq![ReplyView::Git { outcome: first }, ReplyView::Git { outcome: second }]
        + tail;
    let after_first = seq![ReplyView::Git { outcome: second }] + tail;
    assert(replies[0] == ReplyView::Git { outcome: first });
    assert(replies.drop_first() == after_first);
    assert(after_first[0] == ReplyView::Git { outcome: second });
    assert(after_first.drop_first() == tail);
    let start = DiffQueryView::Diff { plan: unstaged_plan() };
    let diffed = start.advance(replies[0]);
    let listed_state = diffed.advance(after_first[0]);
    assert(start.run(replies) == diffed.run(after_first));
    assert(diffed.run(after_first) == listed_state.run(tail));
    lemma_untracked_run(
        first.checked("Failed to execute git diff"@)->Ok_0,
        porcelain_status(second.checked("Failed to get changed files"@)->Ok_0, false),
        listing,
        reads,
    );
}

} // verus!
