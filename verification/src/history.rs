//! Commits and branches: the records, and the parsers of git's log and branch
//! listings.

use vstd::prelude::*;
use crate::split::{
    join, joined, lemma_joined_parts, lemma_lines_concat, lemma_lines_single, lemma_parts_concat,
    lemma_parts_one, lines, parts, split_lines, split_on,
};
use crate::text::{chars_of, pieces, string_of, views};

verus! {

/// One commit of a log listing.
#[derive(Debug, PartialEq, Eq)]
pub struct CommitInfo {
    pub hash: String,
    pub short_hash: String,
    pub message: String,
    pub author: String,
    pub date: String,
    pub refs: String,
}

/// What a `CommitInfo` holds.
pub struct CommitRecord {
    pub hash: Seq<char>,
    pub short_hash: Seq<char>,
    pub message: Seq<char>,
    pub author: Seq<char>,
    pub date: Seq<char>,
    pub refs: Seq<char>,
}

impl View for CommitInfo {
    type V = CommitRecord;

    open spec fn view(&self) -> CommitRecord {
        CommitRecord {
            hash: self.hash@,
            short_hash: self.short_hash@,
            message: self.message@,
            author: self.author@,
            date: self.date@,
            refs: self.refs@,
        }
    }
}

/// One branch of a branch listing.
#[derive(Debug, PartialEq, Eq)]
pub struct BranchInfo {
    pub name: String,
    pub short_hash: String,
    pub subject: String,
    pub author: String,
    pub date: String,
}

/// What a `BranchInfo` holds.
pub struct BranchRecord {
    pub name: Seq<char>,
    pub short_hash: Seq<char>,
    pub subject: Seq<char>,
    pub author: Seq<char>,
    pub date: Seq<char>,
}

impl View for BranchInfo {
    type V = BranchRecord;

    open spec fn view(&self) -> BranchRecord {
        BranchRecord {
            name: self.name@,
            short_hash: self.short_hash@,
            subject: self.subject@,
            author: self.author@,
            date: self.date@,
        }
    }
}

/// The separator of the fields of a log or branch line.
pub open spec fn bar() -> Seq<char> {
    seq!['|']
}

/// What one line of the log stands for. The line is cut at every `|`. The first
/// two fields are the hashes and the last three are author, date and refs; what
/// lies between belongs to the message, bars included. With exactly five
/// fields the third is the message. A line of fewer than five fields stands
/// for nothing.
pub open spec fn commit_entry(line: Seq<char>) -> Option<CommitRecord> {
    let p = parts(line, bar());
    let n = p.len() as int;
    if n < 5 {
        None
    } else {
        Some(
            CommitRecord {
                hash: p[0],
                short_hash: p[1],
                message: if n > 5 {
                    joined(p.subrange(2, n - 3), bar())
                } else {
                    p[2]
                },
                author: p[n - 3],
                date: p[n - 2],
                refs: p[n - 1],
            },
        )
    }
}

/// `commit_entry` as a function of the line.
pub open spec fn commit_entry_of() -> spec_fn(Seq<char>) -> Option<CommitRecord> {
    |line: Seq<char>| commit_entry(line)
}

/// The commits that a log listing names, line by line.
pub open spec fn commit_log(output: Seq<char>) -> Seq<CommitRecord> {
    lines(output).filter_map(commit_entry_of())
}

/// What one line of the branch listing stands for: its first five fields, or
/// nothing where it has fewer.
pub open spec fn branch_entry(line: Seq<char>) -> Option<BranchRecord> {
    let p = parts(line, bar());
    if p.len() < 5 {
        None
    } else {
        Some(
            BranchRecord { name: p[0], short_hash: p[1], subject: p[2], author: p[3], date: p[4] },
        )
    }
}

/// `branch_entry` as a function of the line.
pub open spec fn branch_entry_of() -> spec_fn(Seq<char>) -> Option<BranchRecord> {
    |line: Seq<char>| branch_entry(line)
}

/// The branches that a branch listing names, line by line.
pub open spec fn branch_list(output: Seq<char>) -> Seq<BranchRecord> {
    lines(output).filter_map(branch_entry_of())
}

fn read_commit_line(line: &[char]) -> (r: Option<CommitInfo>)
    ensures
        match r {
            Some(c) => commit_entry(line@) == Some(c@),
            None => commit_entry(line@) is None,
        },
{
    let sep: Vec<char> = vec!['|'];
    assert(sep@ == bar());
    let p = split_on(line, sep.as_slice());
    let n = p.len();
    if n < 5 {
        return None;
    }
    assert(forall|i: int| 0 <= i < n ==> pieces(p@)[i] == (#[trigger] p@[i])@);
    let message = if n > 5 {
        join(&p, 2, n - 3, sep.as_slice())
    } else {
        string_of(p[2])
    };
    Some(
        CommitInfo {
            hash: string_of(p[0]),
            short_hash: string_of(p[1]),
            message,
            author: string_of(p[n - 3]),
            date: string_of(p[n - 2]),
            refs: string_of(p[n - 1]),
        },
    )
}

/// Parses the output of `git log --format=%H|%h|%s|%an|%ar|%D`: one commit
/// for each line of at least five fields, in the listing's order.
pub fn parse_commit_log(output: &str) -> (commits: Vec<CommitInfo>)
    ensures
        views(commits@) == commit_log(output@),
{
    let text = chars_of(output);
    let ls = split_lines(text.as_slice());
    let mut commits: Vec<CommitInfo> = Vec::new();
    let ghost f = commit_entry_of();
    for i in 0..ls.len()
        invariant
            pieces(ls@) == lines(output@),
            f == commit_entry_of(),
            views(commits@) == pieces(ls@).take(i as int).filter_map(f),
    {
        proof {
            pieces(ls@).lemma_filter_map_take_succ(f, i as int);
        }
        let ghost before = views(commits@);
        match read_commit_line(ls[i]) {
            Some(commit) => {
                commits.push(commit);
                assert(views(commits@) == before.push(commit@));
            },
            None => {},
        }
    }
    assert(pieces(ls@).take(ls.len() as int) == pieces(ls@));
    commits
}

fn read_branch_line(line: &[char]) -> (r: Option<BranchInfo>)
    ensures
        match r {
            Some(b) => branch_entry(line@) == Some(b@),
            None => branch_entry(line@) is None,
        },
{
    let sep: Vec<char> = vec!['|'];
    assert(sep@ == bar());
    let p = split_on(line, sep.as_slice());
    if p.len() < 5 {
        return None;
    }
    assert(forall|i: int| 0 <= i < p.len() ==> pieces(p@)[i] == (#[trigger] p@[i])@);
    Some(
        BranchInfo {
            name: string_of(p[0]),
            short_hash: string_of(p[1]),
            subject: string_of(p[2]),
            author: string_of(p[3]),
            date: string_of(p[4]),
        },
    )
}

/// Parses the output of `git branch` with the five-field format: one branch
/// for each line of at least five fields, in the listing's order.
pub fn parse_branch_list(output: &str) -> (branches: Vec<BranchInfo>)
    ensures
        views(branches@) == branch_list(output@),
{
    let text = chars_of(output);
    let ls = split_lines(text.as_slice());
    let mut branches: Vec<BranchInfo> = Vec::new();
    let ghost f = branch_entry_of();
    for i in 0..ls.len()
        invariant
            pieces(ls@) == lines(output@),
            f == branch_entry_of(),
            views(branches@) == pieces(ls@).take(i as int).filter_map(f),
    {
        proof {
            pieces(ls@).lemma_filter_map_take_succ(f, i as int);
        }
        let ghost before = views(branches@);
        match read_branch_line(ls[i]) {
            Some(branch) => {
                branches.push(branch);
                assert(views(branches@) == before.push(branch@));
            },
            None => {},
        }
    }
    assert(pieces(ls@).take(ls.len() as int) == pieces(ls@));
    branches
}

/// Whether `s` can be a field of a log line other than the message: it holds
/// neither a bar nor a line feed.
pub open spec fn is_field(s: Seq<char>) -> bool {
    !s.contains('|') && !s.contains('\n')
}

/// Whether a log line can carry `c`: only the message holds bars, nothing
/// holds a line feed, and the line does not end in a carriage return.
pub open spec fn is_well_formed(c: CommitRecord) -> bool {
    &&& is_field(c.hash)
    &&& is_field(c.short_hash)
    &&& is_field(c.author)
    &&& is_field(c.date)
    &&& is_field(c.refs)
    &&& !c.message.contains('\n')
    &&& (c.refs.len() > 0 ==> c.refs.last() != '\r')
}

/// The log line that carries `c`: its six fields with bars between them.
pub open spec fn commit_line(c: CommitRecord) -> Seq<char> {
    c.hash + bar() + c.short_hash + bar() + c.message + bar() + c.author + bar() + c.date + bar()
        + c.refs
}

/// The log listing that carries `cs`: one line for each, each ended by a line
/// feed.
pub open spec fn commit_listing(cs: Seq<CommitRecord>) -> Seq<char>
    decreases cs.len(),
{
    if cs.len() == 0 {
        Seq::empty()
    } else {
        commit_listing(cs.drop_last()) + commit_line(cs.last()) + seq!['\n']
    }
}

/// A log line gives back the commit that it carries. The message comes back
/// character for character, with every bar that it holds.
pub proof fn lemma_commit_line(c: CommitRecord)
    requires
        is_well_formed(c),
    ensures
        commit_entry(commit_line(c)) == Some(c),
{
    let tail3 = c.author + bar() + c.date + bar() + c.refs;
    let tail2 = c.date + bar() + c.refs;
    let from_message = c.message + bar() + tail3;
    let from_short = c.short_hash + bar() + from_message;
    let line = c.hash + bar() + from_short;
    assert(line == commit_line(c));
    lemma_parts_one(c.hash, '|');
    lemma_parts_one(c.short_hash, '|');
    lemma_parts_one(c.author, '|');
    lemma_parts_one(c.date, '|');
    lemma_parts_one(c.refs, '|');
    lemma_parts_concat(c.date, c.refs, '|');
    lemma_parts_concat(c.author, tail2, '|');
    assert(c.author + bar() + tail2 == tail3);
    lemma_parts_concat(c.message, tail3, '|');
    lemma_parts_concat(c.short_hash, from_message, '|');
    lemma_parts_concat(c.hash, from_short, '|');
    lemma_joined_parts(c.message, '|');
    let m = parts(c.message, bar());
    let p = parts(line, bar());
    let n = p.len() as int;
    assert(parts(tail3, bar()) == seq![c.author, c.date, c.refs]);
    assert(p == seq![c.hash] + (seq![c.short_hash] + (m + seq![c.author, c.date, c.refs])));
    assert(n == m.len() + 5);
    assert(p.subrange(2, n - 3) == m);
    assert(p[0] == c.hash);
    assert(p[1] == c.short_hash);
    assert(p[n - 3] == c.author);
    assert(p[n - 2] == c.date);
    assert(p[n - 1] == c.refs);
}

/// A commit line holds no line feed and does not end in a carriage return.
proof fn lemma_commit_line_is_line(c: CommitRecord)
    requires
        is_well_formed(c),
    ensures
        !commit_line(c).contains('\n'),
        commit_line(c).len() > 0,
        commit_line(c).last() != '\r',
{
    let line = commit_line(c);
    let a = c.hash + bar() + c.short_hash + bar() + c.message + bar() + c.author + bar() + c.date
        + bar();
    assert(line == a + c.refs);
    assert(a.last() == '|');
    if c.refs.len() > 0 {
        assert(line.last() == c.refs.last());
    } else {
        assert(line == a);
    }
    if line.contains('\n') {
        let i = choose|i: int| 0 <= i < line.len() && line[i] == '\n';
        let h = c.hash.len() as int;
        let s = c.short_hash.len() as int;
        let m = c.message.len() as int;
        let u = c.author.len() as int;
        let d = c.date.len() as int;
        if i < h {
            assert(c.hash[i] == '\n');
            assert(c.hash.contains('\n'));
        } else if i == h {
        } else if i < h + 1 + s {
            assert(c.short_hash[i - h - 1] == '\n');
            assert(c.short_hash.contains('\n'));
        } else if i == h + 1 + s {
        } else if i < h + s + 2 + m {
            assert(c.message[i - h - s - 2] == '\n');
            assert(c.message.contains('\n'));
        } else if i == h + s + 2 + m {
        } else if i < h + s + m + 3 + u {
            assert(c.author[i - h - s - m - 3] == '\n');
            assert(c.author.contains('\n'));
        } else if i == h + s + m + 3 + u {
        } else if i < h + s + m + u + 4 + d {
            assert(c.date[i - h - s - m - u - 4] == '\n');
            assert(c.date.contains('\n'));
        } else if i == h + s + m + u + 4 + d {
        } else {
            assert(c.refs[i - h - s - m - u - d - 5] == '\n');
            assert(c.refs.contains('\n'));
        }
    }
}

/// Reading a listing gives back the commits that it carries: written out and
/// read again, a log stays what it is.
pub proof fn lemma_commit_log_round_trip(cs: Seq<CommitRecord>)
    requires
        forall|i: int| 0 <= i < cs.len() ==> is_well_formed(#[trigger] cs[i]),
    ensures
        commit_log(commit_listing(cs)) == cs,
        commit_listing(cs).len() > 0 ==> commit_listing(cs).last() == '\n',
    decreases cs.len(),
{
    if cs.len() == 0 {
        assert(lines(commit_listing(cs)) == Seq::<Seq<char>>::empty());
    } else {
        let init = cs.drop_last();
        let c = cs.last();
        lemma_commit_log_round_trip(init);
        lemma_commit_line(c);
        lemma_commit_line_is_line(c);
        let before = commit_listing(init);
        let line = commit_line(c);
        assert(commit_listing(cs) == before + (line + seq!['\n']));
        lemma_lines_concat(before, line + seq!['\n']);
        lemma_lines_single(line);
        let ls = lines(before) + seq![line];
        assert(lines(commit_listing(cs)) == ls);
        assert(ls.drop_last() == lines(before));
        assert(ls.last() == line);
        assert(ls.filter_map(commit_entry_of()) == lines(before).filter_map(commit_entry_of())
            + seq![c]);
        assert(init + seq![c] == cs);
    }
}

/// Reading is idempotent on what it gives: a listing written out from what was
/// read reads as the same commits.
pub proof fn lemma_commit_log_idempotent(cs: Seq<CommitRecord>)
    requires
        forall|i: int| 0 <= i < cs.len() ==> is_well_formed(#[trigger] cs[i]),
    ensures
        commit_log(commit_listing(commit_log(commit_listing(cs)))) == commit_log(
            commit_listing(cs),
        ),
{
    lemma_commit_log_round_trip(cs);
}

} // verus!
