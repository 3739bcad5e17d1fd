//! The files of a directory: which names a walk passes over, and how git's
//! list of tracked files is read.

use vstd::prelude::*;
use vstd::string::StringExecFns;
use crate::git::{
    DirItem, DirItemView, Outcome, OutcomeView, Reply, ReplyView, Request, RequestView,
};
use crate::split::{lines, split_lines};
use crate::text::{chars_of, pieces, same, string_of, trim, trimmed, views};

verus! {

/// A file that a walk has found.
#[derive(Debug, PartialEq, Eq)]
pub struct FileEntry {
    /// The path from the directory at which the walk began.
    pub path: String,
    /// The last component of the path.
    pub name: String,
    pub is_dir: bool,
}

/// Whether a walk passes over an entry of this name: hidden entries, and the
/// directories that hold what was built or downloaded.
pub open spec fn is_passed_over(name: Seq<char>) -> bool {
    ||| (name.len() > 0 && name[0] == '.')
    ||| name == "node_modules"@
    ||| name == "target"@
    ||| name == "dist"@
}

/// Whether a walk passes over an entry of this name.
pub fn passes_over(name: &str) -> (b: bool)
    ensures
        b == is_passed_over(name@),
{
    let chars = chars_of(name);
    let text = chars.as_slice();
    (text.len() > 0 && text[0] == '.') || same(text, chars_of("node_modules").as_slice()) || same(
        text,
        chars_of("target").as_slice(),
    ) || same(text, chars_of("dist").as_slice())
}

/// Keeps what a line holds between the white space at its ends, if anything.
pub open spec fn keep_trimmed() -> spec_fn(Seq<char>) -> Option<Seq<char>> {
    |line: Seq<char>|
        if trimmed(line).len() > 0 {
            Some(trimmed(line))
        } else {
            None
        }
}

/// The paths that a listing names: its lines without the white space at their
/// ends, blank ones left out.
pub open spec fn listed_paths(text: Seq<char>) -> Seq<Seq<char>> {
    lines(text).filter_map(keep_trimmed())
}

/// The arguments that list the files that git tracks.
pub fn list_files_command() -> (args: Vec<String>)
    ensures
        views(args@) == seq!["ls-files"@],
{
    let args: Vec<String> = vec!["ls-files".to_owned()];
    assert(views(args@) == seq!["ls-files"@]);
    args
}

/// The files that git tracks, where git ran and reported success. Where it
/// did not, the caller walks the directory instead.
pub fn tracked_files(outcome: &Outcome) -> (r: Option<Vec<String>>)
    ensures
        match r {
            Some(files) => outcome@ matches OutcomeView::Exited { success, stdout, stderr }
                && success && views(files@) == listed_paths(stdout),
            None => !outcome@.succeeded(),
        },
{
    match outcome {
        Outcome::Exited { success, stdout, stderr } => {
            if !*success {
                return None;
            }
            let chars = chars_of(stdout.as_str());
            let ls = split_lines(chars.as_slice());
            let mut files: Vec<String> = Vec::new();
            let ghost f = keep_trimmed();
            for i in 0..ls.len()
                invariant
                    pieces(ls@) == lines(stdout@),
                    f == keep_trimmed(),
                    views(files@) == pieces(ls@).take(i as int).filter_map(f),
            {
                proof {
                    pieces(ls@).lemma_filter_map_take_succ(f, i as int);
                }
                let ghost before = views(files@);
                let path = trim(ls[i]);
                if path.len() > 0 {
                    files.push(string_of(path));
                    assert(views(files@) == before.push(trimmed(ls@[i as int]@)));
                }
            }
            assert(pieces(ls@).take(ls.len() as int) == pieces(ls@));
            Some(files)
        },
        Outcome::NotStarted { reason } => None,
    }
}

/// What a `FileEntry` holds.
pub struct FileEntryView {
    pub path: Seq<char>,
    pub name: Seq<char>,
    pub is_dir: bool,
}

impl View for FileEntry {
    type V = FileEntryView;

    open spec fn view(&self) -> FileEntryView {
        FileEntryView { path: self.path@, name: self.name@, is_dir: self.is_dir }
    }
}

/// An entry that a walk has still to look at, with the depth of the directory
/// that holds it.
#[derive(Debug, PartialEq, Eq)]
pub struct Pending {
    pub item: DirItem,
    pub depth: usize,
}

/// What a `Pending` holds.
pub struct PendingView {
    pub item: DirItemView,
    pub depth: usize,
}

impl View for Pending {
    type V = PendingView;

    open spec fn view(&self) -> PendingView {
        PendingView { item: self.item@, depth: self.depth }
    }
}

/// The query for the files of a directory, under way.
#[derive(Debug, PartialEq, Eq)]
pub enum FileList {
    /// What `.git` is is asked.
    Probing { max_depth: usize },
    /// The files that git tracks are asked.
    Listing { max_depth: usize },
    /// The directory at `path`, `depth` directories down, is being read.
    /// `files` holds the files found so far, and `todo[next..]` the entries
    /// still to look at, in their order.
    Walking {
        max_depth: usize,
        files: Vec<FileEntry>,
        todo: Vec<Pending>,
        next: usize,
        path: String,
        depth: usize,
    },
    /// The answer.
    Done { result: Result<Vec<String>, String> },
}

/// What a `FileList` holds. Of the entries to look at, only those still to
/// come count.
pub enum FileListView {
    Probing { max_depth: usize },
    Listing { max_depth: usize },
    Walking {
        max_depth: usize,
        files: Seq<FileEntryView>,
        todo: Seq<PendingView>,
        path: Seq<char>,
        depth: usize,
    },
    Done { result: Result<Seq<Seq<char>>, Seq<char>> },
}

/// What the answer of a query for files holds.
pub open spec fn paths_result_view(r: Result<Vec<String>, String>) -> Result<
    Seq<Seq<char>>,
    Seq<char>,
> {
    match r {
        Ok(paths) => Ok(views(paths@)),
        Err(m) => Err(m@),
    }
}

/// The entries of `todo` from `next` on.
pub open spec fn still_to_come(todo: Seq<PendingView>, next: usize) -> Seq<PendingView> {
    if next <= todo.len() {
        todo.skip(next as int)
    } else {
        Seq::empty()
    }
}

impl View for FileList {
    type V = FileListView;

    open spec fn view(&self) -> FileListView {
        match self {
            FileList::Probing { max_depth } => FileListView::Probing { max_depth: *max_depth },
            FileList::Listing { max_depth } => FileListView::Listing { max_depth: *max_depth },
            FileList::Walking { max_depth, files, todo, next, path, depth } => {
                FileListView::Walking {
                    max_depth: *max_depth,
                    files: views(files@),
                    todo: still_to_come(views(todo@), *next),
                    path: path@,
                    depth: *depth,
                }
            },
            FileList::Done { result } => FileListView::Done { result: paths_result_view(*result) },
        }
    }
}

/// The paths of `files`.
pub open spec fn paths_of(files: Seq<FileEntryView>) -> Seq<Seq<char>> {
    files.map_values(|f: FileEntryView| f.path)
}

/// The entries `items` of a directory that lies `depth` directories down.
pub open spec fn at_depth(items: Seq<DirItemView>, depth: usize) -> Seq<PendingView> {
    items.map_values(|item: DirItemView| PendingView { item, depth })
}

/// Where a walk stands once it has looked at the entries `todo` as far as it
/// can without reading a directory. Entries are taken in their order. One
/// that could not be read ends the walk with an error. One that is passed
/// over is left out. A file is added to the files found. A directory is read
/// next, unless that would lead further down than the walk may go.
pub open spec fn settled(
    max_depth: usize,
    files: Seq<FileEntryView>,
    todo: Seq<PendingView>,
) -> FileListView
    decreases todo.len(),
{
    if todo.len() == 0 {
        FileListView::Done { result: Ok(paths_of(files)) }
    } else {
        let rest = todo.drop_first();
        match todo[0].item {
            DirItemView::Broken { reason } => FileListView::Done {
                result: Err("Failed to read entry: "@ + reason),
            },
            DirItemView::Entry { name, path, is_dir } => {
                if is_passed_over(name) {
                    settled(max_depth, files, rest)
                } else if is_dir {
                    if todo[0].depth < max_depth {
                        FileListView::Walking {
                            max_depth,
                            files,
                            todo: rest,
                            path,
                            depth: (todo[0].depth + 1) as usize,
                        }
                    } else {
                        settled(max_depth, files, rest)
                    }
                } else {
                    settled(
                        max_depth,
                        files.push(FileEntryView { path, name, is_dir: false }),
                        rest,
                    )
                }
            },
        }
    }
}

/// The walk at its start: the directory itself is read.
pub open spec fn walk_start(max_depth: usize) -> FileListView {
    FileListView::Walking {
        max_depth,
        files: Seq::empty(),
        todo: Seq::empty(),
        path: Seq::empty(),
        depth: 0,
    }
}

impl FileListView {
    /// What the query asks for next; nothing once it holds its answer.
    pub open spec fn pending(self) -> Option<RequestView> {
        match self {
            FileListView::Probing { max_depth } => Some(RequestView::InspectDotGit),
            FileListView::Listing { max_depth } => Some(RequestView::Git { args: seq!["ls-files"@] }),
            FileListView::Walking { max_depth, files, todo, path, depth } => Some(
                RequestView::ReadDir { path },
            ),
            FileListView::Done { result } => None,
        }
    }

    /// The query after `reply`. In a repository the files are those that git
    /// tracks; where there is no repository or git does not answer, the
    /// directory is walked, the entries of each directory before what follows
    /// it. A reply that does not answer what the query asked for leaves it as
    /// it is.
    pub open spec fn advance(self, reply: ReplyView) -> FileListView {
        match (self, reply) {
            (FileListView::Probing { max_depth }, ReplyView::DotGit { found }) => {
                if found is Missing {
                    walk_start(max_depth)
                } else {
                    FileListView::Listing { max_depth }
                }
            },
            (FileListView::Listing { max_depth }, ReplyView::Git { outcome }) => match outcome {
                OutcomeView::Exited { success, stdout, stderr } => if success {
                    FileListView::Done { result: Ok(listed_paths(stdout)) }
                } else {
                    walk_start(max_depth)
                },
                OutcomeView::NotStarted { reason } => walk_start(max_depth),
            },
            (
                FileListView::Walking { max_depth, files, todo, path, depth },
                ReplyView::Dir { entries },
            ) => match entries {
                Ok(items) => settled(max_depth, files, at_depth(items, depth) + todo),
                Err(reason) => FileListView::Done {
                    result: Err("Failed to read directory: "@ + reason),
                },
            },
            _ => self,
        }
    }
}

/// The query for the files of a directory, by their paths. The walk goes at
/// most `max_depth` directories down.
pub fn list_files(max_depth: usize) -> (q: FileList)
    ensures
        q@ == (FileListView::Probing { max_depth }),
{
    FileList::Probing { max_depth }
}

fn start_walk(max_depth: usize) -> (q: FileList)
    ensures
        q@ == walk_start(max_depth),
{
    let files: Vec<FileEntry> = Vec::new();
    let todo: Vec<Pending> = Vec::new();
    assert(views(files@) == Seq::<FileEntryView>::empty());
    assert(still_to_come(views(todo@), 0) == Seq::<PendingView>::empty());
    FileList::Walking { max_depth, files, todo, next: 0, path: String::new(), depth: 0 }
}

fn copy_item(item: &DirItem) -> (c: DirItem)
    ensures
        c@ == item@,
{
    match item {
        DirItem::Entry { name, path, is_dir } => DirItem::Entry {
            name: name.clone(),
            path: path.clone(),
            is_dir: *is_dir,
        },
        DirItem::Broken { reason } => DirItem::Broken { reason: reason.clone() },
    }
}

fn paths(files: &Vec<FileEntry>) -> (out: Vec<String>)
    ensures
        views(out@) == paths_of(views(files@)),
{
    let mut out: Vec<String> = Vec::new();
    for i in 0..files.len()
        invariant
            views(out@) == paths_of(views(files@)).take(i as int),
    {
        let ghost before = views(out@);
        out.push(files[i].path.clone());
        assert(views(out@) == before.push(files@[i as int].path@));
    }
    assert(paths_of(views(files@)).take(files.len() as int) == paths_of(views(files@)));
    out
}

fn settle(max_depth: usize, so_far: Vec<FileEntry>, todo: Vec<Pending>) -> (q: FileList)
    ensures
        q@ == settled(max_depth, views(so_far@), views(todo@)),
{
    let ghost given = views(so_far@);
    let mut files = so_far;
    let mut next: usize = 0;
    let ghost all = views(todo@);
    assert(all.skip(0) == all);
    while next < todo.len()
        invariant
            next <= todo.len(),
            all == views(todo@),
            given == views(so_far@),
            settled(max_depth, views(files@), all.skip(next as int)) == settled(
                max_depth,
                given,
                all,
            ),
        decreases todo.len() - next,
    {
        let ghost rest = all.skip(next as int);
        let ghost found = views(files@);
        proof {
            assert(rest[0] == todo@[next as int]@);
            assert(rest.drop_first() == all.skip(next + 1));
        }
        let depth = todo[next].depth;
        assert(rest[0].item == todo@[next as int].item@ && rest[0].depth == depth);
        match &todo[next].item {
            DirItem::Broken { reason } => {
                let mut m = "Failed to read entry: ".to_owned();
                m.append(reason.as_str());
                assert(settled(max_depth, found, rest) == (FileListView::Done {
                    result: Err("Failed to read entry: "@ + reason@),
                }));
                return FileList::Done { result: Err(m) };
            },
            DirItem::Entry { name, path, is_dir } => {
                if passes_over(name.as_str()) {
                } else if *is_dir {
                    if depth < max_depth {
                        let path = path.clone();
                        assert(still_to_come(all, (next + 1) as usize) == rest.drop_first());
                        assert(settled(max_depth, found, rest) == (FileListView::Walking {
                            max_depth,
                            files: found,
                            todo: rest.drop_first(),
                            path: path@,
                            depth: (depth + 1) as usize,
                        }));
                        return FileList::Walking {
                            max_depth,
                            files,
                            todo,
                            next: next + 1,
                            path,
                            depth: depth + 1,
                        };
                    }
                } else {
                    let entry = FileEntry { path: path.clone(), name: name.clone(), is_dir: false };
                    files.push(entry);
                    assert(views(files@) == found.push(entry@));
                }
            },
        }
        next += 1;
    }
    FileList::Done { result: Ok(paths(&files)) }
}

impl FileList {
    /// What the query asks for next; nothing once it holds its answer.
    pub fn pending(&self) -> (r: Option<Request>)
        ensures
            match r {
                Some(request) => self@.pending() == Some(request@),
                None => self@.pending() is None,
            },
    {
        match self {
            FileList::Probing { max_depth } => Some(Request::InspectDotGit),
            FileList::Listing { max_depth } => Some(Request::Git { args: list_files_command() }),
            FileList::Walking { max_depth, files, todo, next, path, depth } => Some(
                Request::ReadDir { path: path.clone() },
            ),
            FileList::Done { result } => None,
        }
    }

    /// The query after `reply`.
    pub fn advance(self, reply: Reply) -> (next: FileList)
        ensures
            next@ == self@.advance(reply@),
    {
        match self {
            FileList::Probing { max_depth } => match reply {
                Reply::DotGit { found } => {
                    if crate::git::is_git_repo(&found) {
                        FileList::Listing { max_depth }
                    } else {
                        start_walk(max_depth)
                    }
                },
                _ => FileList::Probing { max_depth },
            },
            FileList::Listing { max_depth } => match reply {
                Reply::Git { outcome } => match tracked_files(&outcome) {
                    Some(files) => FileList::Done { result: Ok(files) },
                    None => start_walk(max_depth),
                },
                _ => FileList::Listing { max_depth },
            },
            FileList::Walking { max_depth, files, todo, next, path, depth } => match reply {
                Reply::Dir { entries } => match entries {
                    Ok(items) => {
                        let ghost later = still_to_come(views(todo@), next);
                        let mut ahead: Vec<Pending> = Vec::new();
                        let mut items = items;
                        let ghost given = views(items@);
                        let mut i: usize = 0;
                        while i < items.len()
                            invariant
                                i <= items.len(),
                                given == views(items@),
                                views(ahead@) == at_depth(given, depth).take(i as int),
                            decreases items.len() - i,
                        {
                            let ghost before = views(ahead@);
                            let item = copy_item(&items[i]);
                            ahead.push(Pending { item, depth });
                            assert(views(ahead@) == before.push(
                                PendingView { item: given[i as int], depth },
                            ));
                            i += 1;
                        }
                        assert(at_depth(given, depth).take(items.len() as int) == at_depth(
                            given,
                            depth,
                        ));
                        let start = if next < todo.len() {
                            next
                        } else {
                            todo.len()
                        };
                        assert(later == views(todo@).skip(start as int));
                        let mut k: usize = start;
                        while k < todo.len()
                            invariant
                                start <= k <= todo.len(),
                                later == views(todo@).skip(start as int),
                                views(ahead@) == at_depth(given, depth) + later.take(k - start),
                            decreases todo.len() - k,
                        {
                            let ghost before = views(ahead@);
                            let item = copy_item(&todo[k].item);
                            let waiting = Pending { item, depth: todo[k].depth };
                            ahead.push(waiting);
                            proof {
                                assert(later[k - start] == todo@[k as int]@);
                                assert(later.take(k - start + 1) == later.take(k - start).push(
                                    waiting@,
                                ));
                                assert(views(ahead@) == before.push(waiting@));
                            }
                            k += 1;
                        }
                        assert(later.take(todo.len() - start) == later);
                        settle(max_depth, files, ahead)
                    },
                    Err(reason) => {
                        let mut m = "Failed to read directory: ".to_owned();
                        m.append(reason.as_str());
                        FileList::Done { result: Err(m) }
                    },
                },
                _ => FileList::Walking { max_depth, files, todo, next, path, depth },
            },
            FileList::Done { result } => FileList::Done { result },
        }
    }

    /// The answer, once the query holds it.
    pub fn finish(self) -> (r: Option<Result<Vec<String>, String>>)
        ensures
            match r {
                Some(result) => self@ == (FileListView::Done { result: paths_result_view(result) }),
                None => !(self@ is Done),
            },
    {
        match self {
            FileList::Done { result } => Some(result),
            _ => None,
        }
    }
}

} // verus!
