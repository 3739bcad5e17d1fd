//! Changed files: the records, and the parsers of git's two status listings.

use vstd::prelude::*;
use crate::split::{lines, split_lines, split_words, words};
use crate::text::{chars_of, pieces, string_of, trim, trimmed, views};

verus! {

/// A changed file. `status` is `"modified"`, `"added"`, `"deleted"` or
/// `"renamed"`.
#[derive(Debug, PartialEq, Eq)]
pub struct GitFile {
    pub path: String,
    pub status: String,
}

/// What a `GitFile` holds.
pub struct FileRecord {
    pub path: Seq<char>,
    pub status: Seq<char>,
}

impl View for GitFile {
    type V = FileRecord;

    open spec fn view(&self) -> FileRecord {
        FileRecord { path: self.path@, status: self.status@ }
    }
}

/// The answer to a diff query: the diff's text and the files it touches.
#[derive(Debug, PartialEq, Eq)]
pub struct GitDiffResult {
    pub diff: String,
    pub files: Vec<GitFile>,
}

/// What a `GitDiffResult` holds.
pub struct DiffRecord {
    pub diff: Seq<char>,
    pub files: Seq<FileRecord>,
}

impl View for GitDiffResult {
    type V = DiffRecord;

    open spec fn view(&self) -> DiffRecord {
        DiffRecord { diff: self.diff@, files: views(self.files@) }
    }
}

/// The status of a file whose content has changed.
pub open spec fn modified() -> Seq<char> {
    "modified"@
}

/// The status of a file that is new.
pub open spec fn added() -> Seq<char> {
    "added"@
}

/// The status of a file that is gone.
pub open spec fn deleted() -> Seq<char> {
    "deleted"@
}

/// The status of a file that has a new name.
pub open spec fn renamed() -> Seq<char> {
    "renamed"@
}

/// Whether `status` is one of the four that a changed file can have.
pub open spec fn is_status(status: Seq<char>) -> bool {
    status == modified() || status == added() || status == deleted() || status == renamed()
}

/// The status that the index column `x` alone gives. A copy counts as a
/// modification, and so does every code that is not known.
pub open spec fn staged_status(x: char) -> Seq<char> {
    if x == 'A' {
        added()
    } else if x == 'D' {
        deleted()
    } else if x == 'R' {
        renamed()
    } else {
        modified()
    }
}

/// The status that the index column `x` and the worktree column `y` give
/// together. The first rule that applies decides: a modified worktree, a
/// modified index, an added index, a deletion on either side, a renamed index,
/// an untracked file (which counts as added); everything else is modified.
pub open spec fn unstaged_status(x: char, y: char) -> Seq<char> {
    if y == 'M' {
        modified()
    } else if x == 'M' {
        modified()
    } else if x == 'A' {
        added()
    } else if y == 'D' || x == 'D' {
        deleted()
    } else if x == 'R' {
        renamed()
    } else if x == '?' && y == '?' {
        added()
    } else {
        modified()
    }
}

/// What one line `XY path` of the porcelain status stands for. A line of fewer
/// than four characters stands for nothing; when only staged files are asked
/// for, neither does a line whose index column is blank or `?`.
pub open spec fn porcelain_entry(line: Seq<char>, staged: bool) -> Option<FileRecord> {
    if line.len() < 4 {
        None
    } else if staged && (line[0] == ' ' || line[0] == '?') {
        None
    } else {
        Some(
            FileRecord {
                path: trimmed(line.skip(3)),
                status: if staged {
                    staged_status(line[0])
                } else {
                    unstaged_status(line[0], line[1])
                },
            },
        )
    }
}

/// `porcelain_entry` for one way of reading, as a function of the line.
pub open spec fn porcelain_entry_of(staged: bool) -> spec_fn(Seq<char>) -> Option<FileRecord> {
    |line: Seq<char>| porcelain_entry(line, staged)
}

/// The files that a porcelain status listing names, line by line.
pub open spec fn porcelain_status(output: Seq<char>, staged: bool) -> Seq<FileRecord> {
    lines(output).filter_map(porcelain_entry_of(staged))
}

/// The status that a name-status code gives: the four letters `M`, `A`, `D`
/// and `R` stand for themselves, every other code for a modification.
pub open spec fn code_status(code: Seq<char>) -> Seq<char> {
    if code == seq!['A'] {
        added()
    } else if code == seq!['D'] {
        deleted()
    } else if code == seq!['R'] {
        renamed()
    } else {
        modified()
    }
}

/// What one line of a name-status listing stands for: its first word is the
/// code, its second the path. A line of fewer than two words stands for
/// nothing.
pub open spec fn name_status_entry(line: Seq<char>) -> Option<FileRecord> {
    let w = words(line);
    if w.len() < 2 {
        None
    } else {
        Some(FileRecord { path: w[1], status: code_status(w[0]) })
    }
}

/// `name_status_entry` as a function of the line.
pub open spec fn name_status_entry_of() -> spec_fn(Seq<char>) -> Option<FileRecord> {
    |line: Seq<char>| name_status_entry(line)
}

/// The files that a name-status listing names, line by line.
pub open spec fn name_status(output: Seq<char>) -> Seq<FileRecord> {
    lines(output).filter_map(name_status_entry_of())
}

fn porcelain_line(line: &[char], staged: bool) -> (r: Option<GitFile>)
    ensures
        match r {
            Some(f) => porcelain_entry(line@, staged) == Some(f@),
            None => porcelain_entry(line@, staged) is None,
        },
{
    if line.len() < 4 {
        return None;
    }
    let x = line[0];
    let y = line[1];
    if staged && (x == ' ' || x == '?') {
        return None;
    }
    let path = string_of(trim(&line[3..line.len()]));
    let status = if staged {
        if x == 'A' {
            "added"
        } else if x == 'D' {
            "deleted"
        } else if x == 'R' {
            "renamed"
        } else {
            "modified"
        }
    } else {
        if y == 'M' || x == 'M' {
            "modified"
        } else if x == 'A' {
            "added"
        } else if y == 'D' || x == 'D' {
            "deleted"
        } else if x == 'R' {
            "renamed"
        } else if x == '?' && y == '?' {
            "added"
        } else {
            "modified"
        }
    };
    Some(GitFile { path, status: status.to_owned() })
}

/// Parses the output of `git status --porcelain`: one file for each line
/// `XY path` that counts (see `porcelain_entry`), in the listing's order.
pub fn parse_porcelain_status(output: &str, staged: bool) -> (files: Vec<GitFile>)
    ensures
        views(files@) == porcelain_status(output@, staged),
        forall|i: int| 0 <= i < files.len() ==> is_status(#[trigger] files[i].status@),
{
    let text = chars_of(output);
    let ls = split_lines(text.as_slice());
    let mut files: Vec<GitFile> = Vec::new();
    let ghost f = porcelain_entry_of(staged);
    for i in 0..ls.len()
        invariant
            pieces(ls@) == lines(output@),
            f == porcelain_entry_of(staged),
            views(files@) == pieces(ls@).take(i as int).filter_map(f),
            forall|j: int| 0 <= j < files.len() ==> is_status(#[trigger] files[j].status@),
    {
        proof {
            pieces(ls@).lemma_filter_map_take_succ(f, i as int);
        }
        let ghost before = views(files@);
        match porcelain_line(ls[i], staged) {
            Some(file) => {
                files.push(file);
                assert(views(files@) == before.push(file@));
            },
            None => {},
        }
    }
    assert(pieces(ls@).take(ls.len() as int) == pieces(ls@));
    files
}

fn name_status_line(line: &[char]) -> (r: Option<GitFile>)
    ensures
        match r {
            Some(f) => name_status_entry(line@) == Some(f@),
            None => name_status_entry(line@) is None,
        },
{
    let w = split_words(line);
    if w.len() < 2 {
        return None;
    }
    assert(pieces(w@)[0] == w@[0]@);
    assert(pieces(w@)[1] == w@[1]@);
    let code = w[0];
    let letter = if code.len() == 1 {
        code[0]
    } else {
        'M'
    };
    assert(code@ == seq![letter] || code@.len() != 1);
    let status = if letter == 'A' {
        "added"
    } else if letter == 'D' {
        "deleted"
    } else if letter == 'R' {
        "renamed"
    } else {
        "modified"
    };
    Some(GitFile { path: string_of(w[1]), status: status.to_owned() })
}

/// Parses the output of `git diff-tree --name-status` or `git diff
/// --name-status`: one file for each line of at least two words, in the
/// listing's order.
pub fn parse_file_status(output: &str) -> (files: Vec<GitFile>)
    ensures
        views(files@) == name_status(output@),
        forall|i: int| 0 <= i < files.len() ==> is_status(#[trigger] files[i].status@),
{
    let text = chars_of(output);
    let ls = split_lines(text.as_slice());
    let mut files: Vec<GitFile> = Vec::new();
    let ghost f = name_status_entry_of();
    for i in 0..ls.len()
        invariant
            pieces(ls@) == lines(output@),
            f == name_status_entry_of(),
            views(files@) == pieces(ls@).take(i as int).filter_map(f),
            forall|j: int| 0 <= j < files.len() ==> is_status(#[trigger] files[j].status@),
    {
        proof {
            pieces(ls@).lemma_filter_map_take_succ(f, i as int);
        }
        let ghost before = views(files@);
        match name_status_line(ls[i]) {
            Some(file) => {
                files.push(file);
                assert(views(files@) == before.push(file@));
            },
            None => {},
        }
    }
    assert(pieces(ls@).take(ls.len() as int) == pieces(ls@));
    files
}

/// Whether `path` can be the path of a status line: it is not empty, holds no
/// line feed and does not end in a carriage return.
pub open spec fn is_listed_path(path: Seq<char>) -> bool {
    path.len() > 0 && !path.contains('\n') && path.last() != '\r'
}

/// The status line of the codes `x` and `y` and of `path`.
pub open spec fn status_line(x: char, y: char, path: Seq<char>) -> Seq<char> {
    seq![x, y, ' '] + path
}

/// A listing of one status line shows what the line stands for.
pub proof fn lemma_status_line(x: char, y: char, path: Seq<char>, staged: bool)
    requires
        x != '\n',
        y != '\n',
        is_listed_path(path),
    ensures
        porcelain_status(status_line(x, y, path) + seq!['\n'], staged) == match porcelain_entry(
            status_line(x, y, path),
            staged,
        ) {
            Some(file) => seq![file],
            None => Seq::empty(),
        },
        status_line(x, y, path).len() >= 4,
        status_line(x, y, path)[0] == x,
        status_line(x, y, path)[1] == y,
        status_line(x, y, path).skip(3) == path,
{
    let line = status_line(x, y, path);
    assert(line.skip(3) == path);
    assert(!line.contains('\n')) by {
        if line.contains('\n') {
            let i = choose|i: int| 0 <= i < line.len() && line[i] == '\n';
            assert(i >= 3);
            assert(path[i - 3] == '\n');
            assert(path.contains('\n'));
        }
    }
    assert(line.last() == path.last());
    crate::split::lemma_lines_single(line);
    Seq::lemma_filter_map_singleton(line, porcelain_entry_of(staged));
}

/// When staged files are asked for, a line `XY path` is shown if and only if
/// its index column `X` is neither blank nor `?`, and the status shown is the
/// one that `X` alone gives.
pub proof fn lemma_staged_line(x: char, y: char, path: Seq<char>)
    requires
        x != '\n',
        y != '\n',
        is_listed_path(path),
    ensures
        porcelain_status(status_line(x, y, path) + seq!['\n'], true) == if x == ' ' || x == '?' {
            Seq::<FileRecord>::empty()
        } else {
            seq![FileRecord { path: trimmed(path), status: staged_status(x) }]
        },
{
    lemma_status_line(x, y, path, true);
}

/// When all changes are asked for, every line `XY path` is shown, with the
/// status that the first applicable rule gives: a modified worktree wins over
/// everything, a deletion in the index included.
pub proof fn lemma_unstaged_line(x: char, y: char, path: Seq<char>)
    requires
        x != '\n',
        y != '\n',
        is_listed_path(path),
    ensures
        porcelain_status(status_line(x, y, path) + seq!['\n'], false) == seq![
            FileRecord { path: trimmed(path), status: unstaged_status(x, y) },
        ],
        y == 'M' ==> unstaged_status(x, y) == modified(),
        y != 'M' && x == 'M' ==> unstaged_status(x, y) == modified(),
        y != 'M' && x == 'A' ==> unstaged_status(x, y) == added(),
        y != 'M' && x != 'M' && x != 'A' && (y == 'D' || x == 'D') ==> unstaged_status(x, y)
            == deleted(),
        y != 'M' && y != 'D' && x == 'R' ==> unstaged_status(x, y) == renamed(),
        y == '?' && x == '?' ==> unstaged_status(x, y) == added(),
{
    lemma_status_line(x, y, path, false);
}

/// A listing that follows complete lines adds its files to theirs.
pub proof fn lemma_porcelain_status_concat(a: Seq<char>, b: Seq<char>, staged: bool)
    requires
        a.len() > 0 ==> a.last() == '\n',
    ensures
        porcelain_status(a + b, staged) == porcelain_status(a, staged) + porcelain_status(
            b,
            staged,
        ),
{
    crate::split::lemma_lines_concat(a, b);
    crate::text::lemma_filter_map_concat(lines(a), lines(b), porcelain_entry_of(staged));
}

/// Every status that a listing shows is one of the four.
pub proof fn lemma_status_is_known(x: char, y: char)
    ensures
        is_status(staged_status(x)),
        is_status(unstaged_status(x, y)),
{
}

} // verus!
