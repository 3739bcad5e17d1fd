//! The words in which this crate and the program around it speak of git. The
//! crate starts no process and reads no file. It says which command to run or
//! which file to read, and is told what came of it.

use vstd::prelude::*;
use vstd::string::StringExecFns;
use crate::text::views;

verus! {

/// How one run of git ended.
#[derive(Debug, PartialEq, Eq)]
pub enum Outcome {
    /// Git ran. `stdout` and `stderr` hold what it wrote, and `success` says
    /// whether it reported success.
    Exited { success: bool, stdout: String, stderr: String },
    /// Git could not be started, for the reason given.
    NotStarted { reason: String },
}

/// What an `Outcome` holds.
pub enum OutcomeView {
    Exited { success: bool, stdout: Seq<char>, stderr: Seq<char> },
    NotStarted { reason: Seq<char> },
}

impl View for Outcome {
    type V = OutcomeView;

    open spec fn view(&self) -> OutcomeView {
        match self {
            Outcome::Exited { success, stdout, stderr } => OutcomeView::Exited {
                success: *success,
                stdout: stdout@,
                stderr: stderr@,
            },
            Outcome::NotStarted { reason } => OutcomeView::NotStarted { reason: reason@ },
        }
    }
}

/// The text of a result whose two sides are strings.
pub open spec fn result_text(r: Result<String, String>) -> Result<Seq<char>, Seq<char>> {
    match r {
        Ok(t) => Ok(t@),
        Err(m) => Err(m@),
    }
}

/// The message for a command that could not be started.
pub open spec fn not_started(context: Seq<char>, reason: Seq<char>) -> Seq<char> {
    context + ": "@ + reason
}

impl OutcomeView {
    /// What a query makes of a command that must succeed: its output where it
    /// did, else an error, which is what git wrote to `stderr` where git ran.
    pub open spec fn checked(self, context: Seq<char>) -> Result<Seq<char>, Seq<char>> {
        match self {
            OutcomeView::NotStarted { reason } => Err(not_started(context, reason)),
            OutcomeView::Exited { success, stdout, stderr } => if success {
                Ok(stdout)
            } else {
                Err(stderr)
            },
        }
    }

    /// What a query makes of a command whose exit is not looked at: its
    /// output, or an error where it could not be started.
    pub open spec fn output(self, context: Seq<char>) -> Result<Seq<char>, Seq<char>> {
        match self {
            OutcomeView::NotStarted { reason } => Err(not_started(context, reason)),
            OutcomeView::Exited { success, stdout, stderr } => Ok(stdout),
        }
    }

    /// Whether git ran and reported success.
    pub open spec fn succeeded(self) -> bool {
        self matches OutcomeView::Exited { success, .. } && success
    }
}

fn failure(context: &str, reason: &str) -> (m: String)
    ensures
        m@ == not_started(context@, reason@),
{
    let mut m = context.to_owned();
    m.append(": ");
    m.append(reason);
    m
}

impl Outcome {
    /// The output of a command that must succeed, or the error.
    pub fn check(self, context: &str) -> (r: Result<String, String>)
        ensures
            result_text(r) == self@.checked(context@),
    {
        match self {
            Outcome::NotStarted { reason } => Err(failure(context, reason.as_str())),
            Outcome::Exited { success, stdout, stderr } => if success {
                Ok(stdout)
            } else {
                Err(stderr)
            },
        }
    }

    /// The output of a command whose exit is not looked at, or the error.
    pub fn output(self, context: &str) -> (r: Result<String, String>)
        ensures
            result_text(r) == self@.output(context@),
    {
        match self {
            Outcome::NotStarted { reason } => Err(failure(context, reason.as_str())),
            Outcome::Exited { success, stdout, stderr } => Ok(stdout),
        }
    }

    /// Whether git ran and reported success.
    pub fn succeeded(&self) -> (b: bool)
        ensures
            b == self@.succeeded(),
    {
        match self {
            Outcome::NotStarted { reason } => false,
            Outcome::Exited { success, stdout, stderr } => *success,
        }
    }
}

/// What `<repository>/.git` is.
#[derive(Debug, PartialEq, Eq)]
pub enum DotGit {
    /// A directory: the repository is an ordinary one.
    Directory,
    /// A file, as in a linked worktree, with its text where it could be read.
    File { content: Option<String> },
    /// Something else.
    Other,
    /// Nothing: it does not exist.
    Missing,
}

/// What a `DotGit` holds.
pub enum DotGitView {
    Directory,
    File { content: Option<Seq<char>> },
    Other,
    Missing,
}

impl View for DotGit {
    type V = DotGitView;

    open spec fn view(&self) -> DotGitView {
        match self {
            DotGit::Directory => DotGitView::Directory,
            DotGit::File { content } => DotGitView::File {
                content: match content {
                    Some(t) => Some(t@),
                    None => None,
                },
            },
            DotGit::Other => DotGitView::Other,
            DotGit::Missing => DotGitView::Missing,
        }
    }
}

/// Whether a directory holds a repository: whether it holds anything by the
/// name `.git`.
pub fn is_git_repo(dot_git: &DotGit) -> (b: bool)
    ensures
        b == !(dot_git@ is Missing),
{
    match dot_git {
        DotGit::Missing => false,
        _ => true,
    }
}

/// The git directory in which the stack state of a repository lives, under
/// the name `gg`.
#[derive(Debug, PartialEq, Eq)]
pub enum StateDir {
    /// `<repository>/.git`.
    Repository,
    /// The directory that a linked worktree's `.git` file names. A relative
    /// path is meant from the worktree.
    Linked { gitdir: String },
}

/// What a `StateDir` holds.
pub enum StateDirView {
    Repository,
    Linked { gitdir: Seq<char> },
}

impl View for StateDir {
    type V = StateDirView;

    open spec fn view(&self) -> StateDirView {
        match self {
            StateDir::Repository => StateDirView::Repository,
            StateDir::Linked { gitdir } => StateDirView::Linked { gitdir: gitdir@ },
        }
    }
}

/// What came of reading an untracked file.
#[derive(Debug, PartialEq, Eq)]
pub enum FileRead {
    /// The path names no regular file.
    NotAFile,
    /// The bytes of the file.
    Bytes { bytes: Vec<u8> },
    /// The file could not be read, for the reason given.
    Unreadable { reason: String },
}

/// What a `FileRead` holds.
pub enum FileReadView {
    NotAFile,
    Bytes { bytes: Seq<u8> },
    Unreadable { reason: Seq<char> },
}

impl View for FileRead {
    type V = FileReadView;

    open spec fn view(&self) -> FileReadView {
        match self {
            FileRead::NotAFile => FileReadView::NotAFile,
            FileRead::Bytes { bytes } => FileReadView::Bytes { bytes: bytes@ },
            FileRead::Unreadable { reason } => FileReadView::Unreadable { reason: reason@ },
        }
    }
}

/// One entry of a directory, as reading the directory gave it.
#[derive(Debug, PartialEq, Eq)]
pub enum DirItem {
    /// An entry: its name, its path from the directory at which the walk
    /// began, and whether it is a directory.
    Entry { name: String, path: String, is_dir: bool },
    /// An entry that could not be read, for the reason given.
    Broken { reason: String },
}

/// What a `DirItem` holds.
pub enum DirItemView {
    Entry { name: Seq<char>, path: Seq<char>, is_dir: bool },
    Broken { reason: Seq<char> },
}

impl View for DirItem {
    type V = DirItemView;

    open spec fn view(&self) -> DirItemView {
        match self {
            DirItem::Entry { name, path, is_dir } => DirItemView::Entry {
                name: name@,
                path: path@,
                is_dir: *is_dir,
            },
            DirItem::Broken { reason } => DirItemView::Broken { reason: reason@ },
        }
    }
}

/// What reading a directory gave: its entries, or the reason why it could
/// not be read.
pub open spec fn dir_view(read: Result<Vec<DirItem>, String>) -> Result<
    Seq<DirItemView>,
    Seq<char>,
> {
    match read {
        Ok(items) => Ok(views(items@)),
        Err(reason) => Err(reason@),
    }
}

/// What a query asks the program around it to do next.
#[derive(Debug, PartialEq, Eq)]
pub enum Request {
    /// Run git with these arguments in the repository.
    Git { args: Vec<String> },
    /// Run git with these arguments in the directory `cwd`.
    GitIn { cwd: String, args: Vec<String> },
    /// Read the file at `path`, which is relative to the repository.
    ReadFile { path: String },
    /// Say what `<repository>/.git` is.
    InspectDotGit,
    /// Say whether the state directory holds a file of this name.
    StateFileExists { dir: StateDir, name: String },
    /// Read a file of the state directory as text.
    ReadStateFile { dir: StateDir, name: String },
    /// List the entries of the directory at `path`, which is relative to the
    /// repository; the empty path is the repository itself.
    ReadDir { path: String },
}

/// What a `Request` holds.
pub enum RequestView {
    Git { args: Seq<Seq<char>> },
    GitIn { cwd: Seq<char>, args: Seq<Seq<char>> },
    ReadFile { path: Seq<char> },
    InspectDotGit,
    StateFileExists { dir: StateDirView, name: Seq<char> },
    ReadStateFile { dir: StateDirView, name: Seq<char> },
    ReadDir { path: Seq<char> },
}

impl View for Request {
    type V = RequestView;

    open spec fn view(&self) -> RequestView {
        match self {
            Request::Git { args } => RequestView::Git { args: views(args@) },
            Request::GitIn { cwd, args } => RequestView::GitIn { cwd: cwd@, args: views(args@) },
            Request::ReadFile { path } => RequestView::ReadFile { path: path@ },
            Request::InspectDotGit => RequestView::InspectDotGit,
            Request::StateFileExists { dir, name } => RequestView::StateFileExists {
                dir: dir@,
                name: name@,
            },
            Request::ReadStateFile { dir, name } => RequestView::ReadStateFile {
                dir: dir@,
                name: name@,
            },
            Request::ReadDir { path } => RequestView::ReadDir { path: path@ },
        }
    }
}

/// What the program around a query tells it of the request it made.
#[derive(Debug, PartialEq, Eq)]
pub enum Reply {
    /// How git ended.
    Git { outcome: Outcome },
    /// What came of reading an untracked file.
    File { read: FileRead },
    /// What `<repository>/.git` is.
    DotGit { found: DotGit },
    /// Whether the file exists.
    Exists { present: bool },
    /// The text of the file, or the reason why it could not be read.
    Text { content: Result<String, String> },
    /// The entries of the directory, or the reason why it could not be read.
    Dir { entries: Result<Vec<DirItem>, String> },
}

/// What a `Reply` holds.
pub enum ReplyView {
    Git { outcome: OutcomeView },
    File { read: FileReadView },
    DotGit { found: DotGitView },
    Exists { present: bool },
    Text { content: Result<Seq<char>, Seq<char>> },
    Dir { entries: Result<Seq<DirItemView>, Seq<char>> },
}

impl View for Reply {
    type V = ReplyView;

    open spec fn view(&self) -> ReplyView {
        match self {
            Reply::Git { outcome } => ReplyView::Git { outcome: outcome@ },
            Reply::File { read } => ReplyView::File { read: read@ },
            Reply::DotGit { found } => ReplyView::DotGit { found: found@ },
            Reply::Exists { present } => ReplyView::Exists { present: *present },
            Reply::Text { content } => ReplyView::Text { content: result_text(*content) },
            Reply::Dir { entries } => ReplyView::Dir { entries: dir_view(*entries) },
        }
    }
}

/// The replies that tell of these runs of git.
pub open spec fn git_replies(outcomes: Seq<OutcomeView>) -> Seq<ReplyView> {
    outcomes.map_values(|outcome: OutcomeView| ReplyView::Git { outcome })
}

/// A copy of `v`.
pub fn copy_strings(v: &Vec<String>) -> (c: Vec<String>)
    ensures
        views(c@) == views(v@),
{
    let mut c: Vec<String> = Vec::new();
    for i in 0..v.len()
        invariant
            views(c@) == views(v@).take(i as int),
    {
        let ghost before = views(c@);
        c.push(v[i].clone());
        assert(views(c@) == before.push(v@[i as int]@));
    }
    assert(views(v@).take(v.len() as int) == views(v@));
    c
}

} // verus!
