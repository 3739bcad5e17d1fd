//! Worktrees: the record, and the parser of `git worktree list --porcelain`.

use vstd::prelude::*;
use crate::git::{git_replies, OutcomeView, Reply, ReplyView, Request, RequestView};
use crate::query::{last_commit_timestamp, last_commit_timestamp_command, timestamp};
use crate::split::{lines, parts, split_lines, split_on};
use crate::text::{
    chars_of, find, is_space, pieces, same, starts_with, string_of, strip_prefix, trim, trimmed,
    views, without_prefix,
};

verus! {

/// One worktree of a repository.
#[derive(Debug, PartialEq, Eq)]
pub struct WorktreeInfo {
    pub path: String,
    pub branch: String,
    pub commit_hash: String,
    pub is_main: bool,
    pub last_activity: i64,
}

/// What a `WorktreeInfo` holds.
pub struct WorktreeRecord {
    pub path: Seq<char>,
    pub branch: Seq<char>,
    pub commit_hash: Seq<char>,
    pub is_main: bool,
    pub last_activity: i64,
}

impl View for WorktreeInfo {
    type V = WorktreeRecord;

    open spec fn view(&self) -> WorktreeRecord {
        WorktreeRecord {
            path: self.path@,
            branch: self.branch@,
            commit_hash: self.commit_hash@,
            is_main: self.is_main,
            last_activity: self.last_activity,
        }
    }
}

/// What the lines of one block have said so far.
pub struct BlockFields {
    pub path: Option<Seq<char>>,
    pub branch: Seq<char>,
    pub commit_hash: Seq<char>,
    /// Whether one of the lines said that the head is detached.
    pub detached: bool,
}

/// The branch of a worktree whose head is detached.
pub open spec fn detached() -> Seq<char> {
    "(detached)"@
}

/// The first `n` characters of `s`, or all of it where it has fewer.
pub open spec fn first_chars(s: Seq<char>, n: nat) -> Seq<char> {
    if s.len() <= n {
        s
    } else {
        s.take(n as int)
    }
}

/// The name of the branch that `reference` names: what follows `refs/heads/`,
/// or all of it where it does not begin so.
pub open spec fn branch_name(reference: Seq<char>) -> Seq<char> {
    match without_prefix(reference, "refs/heads/"@) {
        Some(name) => name,
        None => reference,
    }
}

/// Whether `line` says that the head is detached: it reads `detached` once
/// the white space at its ends is gone.
pub open spec fn is_detached_line(line: Seq<char>) -> bool {
    trimmed(line) == "detached"@
}

/// What one line adds to the fields of its block. A line that reads
/// `detached` sets the branch to `(detached)` for good. A line
/// `worktree <path>` sets the path and `HEAD <hash>` the commit (cut to seven
/// characters). A line `branch <ref>` sets the branch, unless the block has
/// said that the head is detached. Any other line changes nothing.
pub open spec fn block_line(f: BlockFields, line: Seq<char>) -> BlockFields {
    if is_detached_line(line) {
        BlockFields { branch: detached(), detached: true, ..f }
    } else if let Some(value) = without_prefix(line, "worktree "@) {
        BlockFields { path: Some(trimmed(value)), ..f }
    } else if let Some(value) = without_prefix(line, "HEAD "@) {
        BlockFields { commit_hash: first_chars(trimmed(value), 7), ..f }
    } else if let Some(value) = without_prefix(line, "branch "@) {
        if f.detached {
            f
        } else {
            BlockFields { branch: branch_name(trimmed(value)), ..f }
        }
    } else {
        f
    }
}

/// The fields that a block's lines give, read from first to last. Of several
/// lines that set the path, the commit or the branch, the last counts; a line
/// `detached` counts wherever it stands. A block starts without a path, with
/// the branch `(detached)` and with an empty commit.
pub open spec fn block_fields(ls: Seq<Seq<char>>) -> BlockFields
    decreases ls.len(),
{
    if ls.len() == 0 {
        BlockFields {
            path: None,
            branch: detached(),
            commit_hash: Seq::empty(),
            detached: false,
        }
    } else {
        block_line(block_fields(ls.drop_last()), ls.last())
    }
}

/// What one block stands for: its fields, or nothing where no line gives a
/// path.
pub open spec fn worktree_entry(block: Seq<char>) -> Option<BlockFields> {
    let f = block_fields(lines(block));
    if f.path is Some {
        Some(f)
    } else {
        None
    }
}

/// `worktree_entry` as a function of the block.
pub open spec fn worktree_entry_of() -> spec_fn(Seq<char>) -> Option<BlockFields> {
    |block: Seq<char>| worktree_entry(block)
}

/// The worktree that the fields `f` describe when it is the `i`-th that the
/// listing holds. The first is the main one; no activity is known yet.
pub open spec fn worktree_record(f: BlockFields, i: int) -> WorktreeRecord {
    WorktreeRecord {
        path: f.path->0,
        branch: f.branch,
        commit_hash: f.commit_hash,
        is_main: i == 0,
        last_activity: 0,
    }
}

/// The worktrees of a listing: one for each block that gives a path, blocks
/// being separated by blank lines.
pub open spec fn worktree_list(output: Seq<char>) -> Seq<WorktreeRecord> {
    let found = parts(output, seq!['\n', '\n']).filter_map(worktree_entry_of());
    Seq::new(found.len(), |i: int| worktree_record(found[i], i))
}

fn worktree_block(block: &[char], first: bool) -> (r: Option<WorktreeInfo>)
    ensures
        match r {
            Some(w) => worktree_entry(block@) is Some && w@ == worktree_record(
                worktree_entry(block@)->0,
                if first {
                    0
                } else {
                    1
                },
            ),
            None => worktree_entry(block@) is None,
        },
{
    let worktree_key = chars_of("worktree ");
    let head_key = chars_of("HEAD ");
    let branch_key = chars_of("branch ");
    let heads = chars_of("refs/heads/");
    let detached_word = chars_of("detached");
    let detached_name = chars_of("(detached)");
    let ls = split_lines(block);
    let mut path: Option<&[char]> = None;
    let mut branch: &[char] = detached_name.as_slice();
    let mut commit_hash: &[char] = &block[0..0];
    let mut is_detached = false;
    for i in 0..ls.len()
        invariant
            pieces(ls@) == lines(block@),
            worktree_key@ == "worktree "@,
            head_key@ == "HEAD "@,
            branch_key@ == "branch "@,
            heads@ == "refs/heads/"@,
            detached_word@ == "detached"@,
            detached_name@ == "(detached)"@,
            ({
                let f = block_fields(pieces(ls@).take(i as int));
                &&& f.branch == branch@
                &&& f.commit_hash == commit_hash@
                &&& f.detached == is_detached
                &&& match path {
                    Some(p) => f.path == Some(p@),
                    None => f.path is None,
                }
            }),
    {
        let line = ls[i];
        proof {
            let upto = pieces(ls@).take(i + 1);
            assert(upto.drop_last() == pieces(ls@).take(i as int));
            assert(upto.last() == line@);
        }
        if same(trim(line), detached_word.as_slice()) {
            branch = detached_name.as_slice();
            is_detached = true;
        } else if let Some(value) = strip_prefix(line, worktree_key.as_slice()) {
            path = Some(trim(value));
        } else if let Some(value) = strip_prefix(line, head_key.as_slice()) {
            let head = trim(value);
            commit_hash = if head.len() <= 7 {
                head
            } else {
                &head[0..7]
            };
        } else if let Some(value) = strip_prefix(line, branch_key.as_slice()) {
            if !is_detached {
                let reference = trim(value);
                branch = match strip_prefix(reference, heads.as_slice()) {
                    Some(name) => name,
                    None => reference,
                };
            }
        }
    }
    assert(pieces(ls@).take(ls.len() as int) == pieces(ls@));
    match path {
        Some(p) => Some(
            WorktreeInfo {
                path: string_of(p),
                branch: string_of(branch),
                commit_hash: string_of(commit_hash),
                is_main: first,
                last_activity: 0,
            },
        ),
        None => None,
    }
}

/// Parses the output of `git worktree list --porcelain`: one worktree for each
/// block that names a path, in the listing's order. The first of them is
/// marked as the main one, whatever it holds.
pub fn parse_worktree_list(output: &str) -> (worktrees: Vec<WorktreeInfo>)
    ensures
        views(worktrees@) == worktree_list(output@),
        forall|i: int| 0 <= i < worktrees.len() ==> (#[trigger] worktrees[i]).is_main == (i == 0),
{
    let text = chars_of(output);
    let blank: Vec<char> = vec!['\n', '\n'];
    assert(blank@ == seq!['\n', '\n']);
    let blocks = split_on(text.as_slice(), blank.as_slice());
    let mut worktrees: Vec<WorktreeInfo> = Vec::new();
    let ghost f = worktree_entry_of();
    for i in 0..blocks.len()
        invariant
            pieces(blocks@) == parts(output@, seq!['\n', '\n']),
            f == worktree_entry_of(),
            ({
                let found = pieces(blocks@).take(i as int).filter_map(f);
                views(worktrees@) == Seq::new(found.len(), |j: int| worktree_record(found[j], j))
            }),
    {
        proof {
            pieces(blocks@).lemma_filter_map_take_succ(f, i as int);
        }
        let ghost found = pieces(blocks@).take(i as int).filter_map(f);
        let ghost before = views(worktrees@);
        match worktree_block(blocks[i], worktrees.len() == 0) {
            Some(worktree) => {
                worktrees.push(worktree);
                proof {
                    let more = found.push(worktree_entry(blocks@[i as int]@)->0);
                    assert(views(worktrees@) == before.push(worktree@));
                    assert(views(worktrees@) == Seq::new(
                        more.len(),
                        |j: int| worktree_record(more[j], j),
                    ));
                }
            },
            None => {},
        }
    }
    assert(pieces(blocks@).take(blocks.len() as int) == pieces(blocks@));
    assert forall|i: int| 0 <= i < worktrees.len() implies (#[trigger] worktrees[i]).is_main == (i
        == 0) by {
        assert(views(worktrees@)[i] == worktrees@[i]@);
    }
    worktrees
}

/// A block in which no line names a branch has the branch `(detached)`.
pub proof fn lemma_no_branch_is_detached(ls: Seq<Seq<char>>)
    requires
        forall|i: int| 0 <= i < ls.len() ==> without_prefix(#[trigger] ls[i], "branch "@) is None,
    ensures
        block_fields(ls).branch == detached(),
    decreases ls.len(),
{
    if ls.len() > 0 {
        let init = ls.drop_last();
        assert forall|i: int| 0 <= i < init.len() implies without_prefix(
            #[trigger] init[i],
            "branch "@,
        ) is None by {
            assert(init[i] == ls[i]);
        }
        lemma_no_branch_is_detached(init);
    }
}

/// The line `detached` says that the head is detached.
pub proof fn lemma_detached_word()
    ensures
        is_detached_line("detached"@),
{
    reveal_strlit("detached");
    let s = "detached"@;
    assert(!is_space(s[0]));
    assert(!is_space(s.last()));
    assert(trimmed(s) == s);
}

/// Once a block has said that the head is detached, its branch is
/// `(detached)`, whatever follows.
pub proof fn lemma_detached_stays(ls: Seq<Seq<char>>)
    ensures
        block_fields(ls).detached ==> block_fields(ls).branch == detached(),
        ls.len() > 0 && block_fields(ls.drop_last()).detached ==> block_fields(ls).detached,
    decreases ls.len(),
{
    if ls.len() > 0 {
        lemma_detached_stays(ls.drop_last());
    }
}

/// A block with a line that reads `detached` has the branch `(detached)`,
/// wherever that line stands and whatever the other lines say.
pub proof fn lemma_detached_line(ls: Seq<Seq<char>>, i: int)
    requires
        0 <= i < ls.len(),
        is_detached_line(ls[i]),
    ensures
        block_fields(ls).detached,
        block_fields(ls).branch == detached(),
    decreases ls.len(),
{
    let init = ls.drop_last();
    if i < ls.len() - 1 {
        assert(init[i] == ls[i]);
        lemma_detached_line(init, i);
    }
    lemma_detached_stays(ls);
}

/// Whether `output` is one block: it holds no blank line at which it would be
/// cut.
pub open spec fn is_one_block(output: Seq<char>) -> bool {
    find(output, seq!['\n', '\n']) >= output.len()
}

/// A listing that is one block holds the worktree of that block, if it stands
/// for one, and nothing else.
pub proof fn lemma_one_block(output: Seq<char>)
    requires
        is_one_block(output),
    ensures
        worktree_list(output) == match worktree_entry(output) {
            Some(f) => seq![worktree_record(f, 0)],
            None => Seq::empty(),
        },
{
    assert(parts(output, seq!['\n', '\n']) == seq![output]);
    Seq::lemma_filter_map_singleton(output, worktree_entry_of());
}

/// A listing of one block that holds a line `detached` and gives a path is
/// one worktree, at that path and with the branch `(detached)`, whatever else
/// the block holds.
pub proof fn lemma_detached_listing(output: Seq<char>, i: int)
    requires
        is_one_block(output),
        0 <= i < lines(output).len(),
        is_detached_line(lines(output)[i]),
        block_fields(lines(output)).path is Some,
    ensures
        worktree_list(output).len() == 1,
        worktree_list(output)[0].path == block_fields(lines(output)).path->0,
        worktree_list(output)[0].branch == detached(),
        worktree_list(output)[0].is_main,
{
    lemma_one_block(output);
    lemma_detached_line(lines(output), i);
}

/// A line `worktree <path>` sets the path of its block, and nothing else.
pub proof fn lemma_worktree_line(f: BlockFields, path: Seq<char>)
    ensures
        block_line(f, "worktree "@ + path) == (BlockFields { path: Some(trimmed(path)), ..f }),
{
    reveal_strlit("worktree ");
    reveal_strlit("detached");
    let key = "worktree "@;
    let line = key + path;
    assert(line[0] == 'w');
    assert(!is_space(line[0]));
    crate::text::lemma_trimmed_first(line);
    assert("detached"@[0] == 'd');
    assert(!is_detached_line(line));
    assert(line.take(key.len() as int) == key);
    assert(line.skip(key.len() as int) == path);
}

/// A line `branch <ref>` sets the branch of a block that has not said that
/// the head is detached, and changes nothing in one that has.
pub proof fn lemma_branch_line(f: BlockFields, reference: Seq<char>)
    ensures
        block_line(f, "branch "@ + reference) == if f.detached {
            f
        } else {
            BlockFields { branch: branch_name(trimmed(reference)), ..f }
        },
{
    reveal_strlit("branch ");
    reveal_strlit("worktree ");
    reveal_strlit("HEAD ");
    reveal_strlit("detached");
    let key = "branch "@;
    let line = key + reference;
    assert(line[0] == 'b');
    assert(!is_space(line[0]));
    crate::text::lemma_trimmed_first(line);
    assert("detached"@[0] == 'd');
    assert(!is_detached_line(line));
    assert(without_prefix(line, "worktree "@) is None) by {
        if starts_with(line, "worktree "@) {
            assert(line.take(9)[0] == "worktree "@[0]);
        }
    }
    assert(without_prefix(line, "HEAD "@) is None) by {
        if starts_with(line, "HEAD "@) {
            assert(line.take(5)[0] == "HEAD "@[0]);
        }
    }
    assert(line.take(key.len() as int) == key);
    assert(line.skip(key.len() as int) == reference);
}

/// The block of the lines `worktree <path>`, `detached` and `branch <ref>`
/// stands for the worktree at that path with the branch `(detached)`: the
/// branch line after it does not undo the line `detached`.
pub proof fn lemma_detached_before_branch(path: Seq<char>, reference: Seq<char>)
    ensures
        block_fields(seq!["worktree "@ + path, "detached"@, "branch "@ + reference]).path == Some(
            trimmed(path),
        ),
        block_fields(seq!["worktree "@ + path, "detached"@, "branch "@ + reference]).branch
            == detached(),
{
    let l1 = "worktree "@ + path;
    let l2 = "detached"@;
    let l3 = "branch "@ + reference;
    let ls = seq![l1, l2, l3];
    let two = seq![l1, l2];
    let one = seq![l1];
    assert(ls.drop_last() == two && ls.last() == l3);
    assert(two.drop_last() == one && two.last() == l2);
    assert(one.drop_last() == Seq::<Seq<char>>::empty() && one.last() == l1);
    let f0 = block_fields(Seq::<Seq<char>>::empty());
    lemma_worktree_line(f0, path);
    lemma_detached_word();
    let f1 = block_fields(one);
    let f2 = block_fields(two);
    assert(f1 == block_line(f0, l1));
    assert(f2 == block_line(f1, l2));
    lemma_branch_line(f2, reference);
    assert(block_fields(ls) == block_line(f2, l3));
}

/// In a listing, the first worktree is the main one and no other is, whatever
/// the blocks hold.
pub proof fn lemma_first_is_main(output: Seq<char>)
    ensures
        forall|i: int|
            0 <= i < worktree_list(output).len() ==> (#[trigger] worktree_list(output)[i]).is_main
                == (i == 0),
{
}

/// Whether a repository has worktrees worth showing: whether their listing
/// came about and is not empty.
pub fn has_worktrees(listing: &Result<Vec<WorktreeInfo>, String>) -> (b: bool)
    ensures
        b == (listing matches Ok(worktrees) && worktrees.len() > 0),
{
    match listing {
        Ok(worktrees) => worktrees.len() > 0,
        Err(_) => false,
    }
}

/// Where a worktree with the activity `t` goes in a list that runs from the
/// latest activity to the earliest: before the first that was active earlier,
/// and so behind all that were active as late.
pub open spec fn activity_slot(list: Seq<WorktreeRecord>, t: i64) -> int
    decreases list.len(),
{
    if list.len() == 0 || list[0].last_activity < t {
        0
    } else {
        1 + activity_slot(list.drop_first(), t)
    }
}

/// `list` with `w` put in at its place.
pub open spec fn placed(list: Seq<WorktreeRecord>, w: WorktreeRecord) -> Seq<WorktreeRecord> {
    list.insert(activity_slot(list, w.last_activity), w)
}

/// Whether `list` runs from the latest activity to the earliest.
pub open spec fn latest_first(list: Seq<WorktreeRecord>) -> bool {
    forall|i: int, j: int|
        0 <= i < j < list.len() ==> list[i].last_activity >= list[j].last_activity
}

/// The slot lies in the list, behind worktrees that were active as late and
/// before one that was active earlier.
pub proof fn lemma_activity_slot(list: Seq<WorktreeRecord>, t: i64)
    ensures
        0 <= activity_slot(list, t) <= list.len(),
        forall|i: int| 0 <= i < activity_slot(list, t) ==> (#[trigger] list[i]).last_activity >= t,
        activity_slot(list, t) < list.len() ==> list[activity_slot(list, t)].last_activity < t,
    decreases list.len(),
{
    if list.len() == 0 || list[0].last_activity < t {
    } else {
        let rest = list.drop_first();
        lemma_activity_slot(rest, t);
        assert forall|i: int| 0 <= i < activity_slot(list, t) implies (
        #[trigger] list[i]).last_activity >= t by {
            if i > 0 {
                assert(list[i] == rest[i - 1]);
            }
        }
        if activity_slot(list, t) < list.len() {
            assert(list[activity_slot(list, t)] == rest[activity_slot(rest, t)]);
        }
    }
}

/// Putting a worktree in at its place keeps the list in order, and adds that
/// worktree and nothing else.
pub proof fn lemma_placed(list: Seq<WorktreeRecord>, w: WorktreeRecord)
    requires
        latest_first(list),
    ensures
        latest_first(placed(list, w)),
        placed(list, w).to_multiset() == list.to_multiset().insert(w),
{
    let k = activity_slot(list, w.last_activity);
    lemma_activity_slot(list, w.last_activity);
    let out = placed(list, w);
    assert forall|i: int, j: int| 0 <= i < j < out.len() implies out[i].last_activity
        >= out[j].last_activity by {
        if j < k {
            assert(out[i] == list[i] && out[j] == list[j]);
        } else if j == k {
            assert(out[i] == list[i]);
        } else if i < k {
            assert(out[i] == list[i] && out[j] == list[j - 1]);
            if k < list.len() {
                assert(list[k].last_activity >= list[j - 1].last_activity || k == j - 1);
            }
        } else if i == k {
            assert(out[j] == list[j - 1]);
            assert(k == j - 1 || list[k].last_activity >= list[j - 1].last_activity);
        } else {
            assert(out[i] == list[i - 1] && out[j] == list[j - 1]);
        }
    }
    vstd::seq_lib::to_multiset_insert(list, k, w);
}

/// Puts `w` into `list` at its place.
pub fn place(list: &mut Vec<WorktreeInfo>, w: WorktreeInfo)
    ensures
        views(final(list)@) == placed(views(old(list)@), w@),
{
    let mut k: usize = 0;
    let ghost all = views(list@);
    assert(all.skip(0) == all);
    while k < list.len() && list[k].last_activity >= w.last_activity
        invariant
            k <= list.len(),
            all == views(list@),
            *list == *old(list),
            activity_slot(all, w.last_activity) == k + activity_slot(
                all.skip(k as int),
                w.last_activity,
            ),
        decreases list.len() - k,
    {
        proof {
            let rest = all.skip(k as int);
            assert(rest[0] == list@[k as int]@);
            assert(rest.drop_first() == all.skip(k + 1));
        }
        k += 1;
    }
    proof {
        let rest = all.skip(k as int);
        if k < list.len() {
            assert(rest[0] == list@[k as int]@);
        }
    }
    list.insert(k, w);
    assert(views(list@) == all.insert(k as int, w@));
}

/// The query for the worktrees of a repository, under way.
#[derive(Debug, PartialEq, Eq)]
pub enum Worktrees {
    /// The listing is asked.
    Listing,
    /// The time of the last commit of `current` is asked. `sorted` holds the
    /// worktrees before it, latest activity first; `later` holds those after
    /// it.
    Stamping { sorted: Vec<WorktreeInfo>, current: WorktreeInfo, later: Vec<WorktreeInfo> },
    /// The answer.
    Done { result: Result<Vec<WorktreeInfo>, String> },
}

/// What a `Worktrees` holds.
pub enum WorktreesView {
    Listing,
    Stamping { sorted: Seq<WorktreeRecord>, current: WorktreeRecord, later: Seq<WorktreeRecord> },
    Done { result: Result<Seq<WorktreeRecord>, Seq<char>> },
}

/// What the answer of a worktree query holds.
pub open spec fn worktrees_result_view(r: Result<Vec<WorktreeInfo>, String>) -> Result<
    Seq<WorktreeRecord>,
    Seq<char>,
> {
    match r {
        Ok(worktrees) => Ok(views(worktrees@)),
        Err(m) => Err(m@),
    }
}

impl View for Worktrees {
    type V = WorktreesView;

    open spec fn view(&self) -> WorktreesView {
        match self {
            Worktrees::Listing => WorktreesView::Listing,
            Worktrees::Stamping { sorted, current, later } => WorktreesView::Stamping {
                sorted: views(sorted@),
                current: current@,
                later: views(later@),
            },
            Worktrees::Done { result } => WorktreesView::Done {
                result: worktrees_result_view(*result),
            },
        }
    }
}

/// What is shown of the worktrees found: nothing where there is only one.
pub open spec fn shown(worktrees: Seq<WorktreeRecord>) -> Seq<WorktreeRecord> {
    if worktrees.len() <= 1 {
        Seq::empty()
    } else {
        worktrees
    }
}

impl WorktreesView {
    /// What the query asks for next; nothing once it holds its answer.
    pub open spec fn pending(self) -> Option<RequestView> {
        match self {
            WorktreesView::Listing => Some(
                RequestView::Git { args: seq!["worktree"@, "list"@, "--porcelain"@] },
            ),
            WorktreesView::Stamping { sorted, current, later } => Some(
                RequestView::GitIn {
                    cwd: current.path,
                    args: seq!["log"@, "-1"@, "--format=%ct"@],
                },
            ),
            WorktreesView::Done { result } => None,
        }
    }

    /// The query after `reply`. A reply that does not answer what the query
    /// asked for leaves it as it is.
    pub open spec fn advance(self, reply: ReplyView) -> WorktreesView {
        match (self, reply) {
            (WorktreesView::Listing, ReplyView::Git { outcome }) => {
                match outcome.checked("Failed to execute git worktree list"@) {
                    Ok(text) => {
                        let found = worktree_list(text);
                        if found.len() == 0 {
                            WorktreesView::Done { result: Ok(Seq::empty()) }
                        } else {
                            WorktreesView::Stamping {
                                sorted: Seq::empty(),
                                current: found[0],
                                later: found.skip(1),
                            }
                        }
                    },
                    Err(message) => WorktreesView::Done { result: Err(message) },
                }
            },
            (WorktreesView::Stamping { sorted, current, later }, ReplyView::Git { outcome }) => {
                let stamped = WorktreeRecord { last_activity: timestamp(outcome), ..current };
                let more = placed(sorted, stamped);
                if later.len() > 0 {
                    WorktreesView::Stamping { sorted: more, current: later[0], later: later.skip(1) }
                } else {
                    WorktreesView::Done { result: Ok(shown(more)) }
                }
            },
            _ => self,
        }
    }

    /// Whether the worktrees seen so far are in order.
    pub open spec fn in_order(self) -> bool {
        match self {
            WorktreesView::Stamping { sorted, current, later } => latest_first(sorted),
            WorktreesView::Done { result } => match result {
                Ok(worktrees) => latest_first(worktrees),
                Err(_) => true,
            },
            WorktreesView::Listing => true,
        }
    }
}

/// A query keeps its worktrees in order, so that its answer runs from the
/// latest activity to the earliest.
pub proof fn lemma_worktrees_stay_in_order(q: WorktreesView, reply: ReplyView)
    requires
        q.in_order(),
    ensures
        q.advance(reply).in_order(),
{
    match (q, reply) {
        (WorktreesView::Stamping { sorted, current, later }, ReplyView::Git { outcome }) => {
            let stamped = WorktreeRecord { last_activity: timestamp(outcome), ..current };
            lemma_placed(sorted, stamped);
        },
        _ => {},
    }
}

/// The query for the worktrees of a repository. Its answer holds them from
/// the latest commit to the earliest, and is empty where the repository has
/// only one.
pub fn list_worktrees() -> (q: Worktrees)
    ensures
        q@ == WorktreesView::Listing,
{
    Worktrees::Listing
}

/// The arguments that list the worktrees.
pub fn list_worktrees_command() -> (args: Vec<String>)
    ensures
        views(args@) == seq!["worktree"@, "list"@, "--porcelain"@],
{
    let args: Vec<String> = vec!["worktree".to_owned(), "list".to_owned(), "--porcelain".to_owned()];
    assert(views(args@) == seq!["worktree"@, "list"@, "--porcelain"@]);
    args
}

impl Worktrees {
    /// What the query asks for next; nothing once it holds its answer.
    pub fn pending(&self) -> (r: Option<Request>)
        ensures
            match r {
                Some(request) => self@.pending() == Some(request@),
                None => self@.pending() is None,
            },
    {
        match self {
            Worktrees::Listing => Some(Request::Git { args: list_worktrees_command() }),
            Worktrees::Stamping { sorted, current, later } => Some(
                Request::GitIn { cwd: current.path.clone(), args: last_commit_timestamp_command() },
            ),
            Worktrees::Done { result } => None,
        }
    }

    /// The query after `reply`.
    pub fn advance(self, reply: Reply) -> (next: Worktrees)
        ensures
            next@ == self@.advance(reply@),
    {
        match self {
            Worktrees::Listing => match reply {
                Reply::Git { outcome } => {
                    match outcome.check("Failed to execute git worktree list") {
                        Ok(text) => {
                            let mut found = parse_worktree_list(text.as_str());
                            if found.len() == 0 {
                                assert(views(found@) == Seq::<WorktreeRecord>::empty());
                                Worktrees::Done { result: Ok(found) }
                            } else {
                                let ghost all = views(found@);
                                let current = found.remove(0);
                                assert(views(found@) == all.skip(1));
                                assert(current@ == all[0]);
                                let sorted: Vec<WorktreeInfo> = Vec::new();
                                assert(views(sorted@) == Seq::<WorktreeRecord>::empty());
                                Worktrees::Stamping { sorted, current, later: found }
                            }
                        },
                        Err(message) => Worktrees::Done { result: Err(message) },
                    }
                },
                _ => Worktrees::Listing,
            },
            Worktrees::Stamping { sorted, current, later } => match reply {
                Reply::Git { outcome } => {
                    let mut sorted = sorted;
                    let mut later = later;
                    let mut current = current;
                    current.last_activity = last_commit_timestamp(&outcome);
                    place(&mut sorted, current);
                    if later.len() > 0 {
                        let ghost all = views(later@);
                        let following = later.remove(0);
                        assert(views(later@) == all.skip(1));
                        assert(following@ == all[0]);
                        Worktrees::Stamping { sorted, current: following, later }
                    } else if sorted.len() <= 1 {
                        let none: Vec<WorktreeInfo> = Vec::new();
                        assert(views(none@) == Seq::<WorktreeRecord>::empty());
                        Worktrees::Done { result: Ok(none) }
                    } else {
                        Worktrees::Done { result: Ok(sorted) }
                    }
                },
                _ => Worktrees::Stamping { sorted, current, later },
            },
            Worktrees::Done { result } => Worktrees::Done { result },
        }
    }

    /// The answer, once the query holds it.
    pub fn finish(self) -> (r: Option<Result<Vec<WorktreeInfo>, String>>)
        ensures
            match r {
                Some(result) => self@ == (WorktreesView::Done {
                    result: worktrees_result_view(result),
                }),
                None => !(self@ is Done),
            },
    {
        match self {
            Worktrees::Done { result } => Some(result),
            _ => None,
        }
    }
}

impl WorktreesView {
    /// The query after the replies `replies`, one after the other.
    pub open spec fn run(self, replies: Seq<ReplyView>) -> WorktreesView
        decreases replies.len(),
    {
        if replies.len() == 0 {
            self
        } else {
            self.advance(replies[0]).run(replies.drop_first())
        }
    }
}

/// The worktree `w` with the activity that the run `time` gives it.
pub open spec fn stamped(w: WorktreeRecord, time: OutcomeView) -> WorktreeRecord {
    WorktreeRecord { last_activity: timestamp(time), ..w }
}

/// The worktrees `found` with the activity that the runs `times` give them,
/// from the latest to the earliest. Worktrees of the same activity keep the
/// order in which they were found.
pub open spec fn by_activity(found: Seq<WorktreeRecord>, times: Seq<OutcomeView>) -> Seq<
    WorktreeRecord,
>
    decreases found.len(),
{
    if found.len() == 0 || times.len() == 0 {
        Seq::empty()
    } else {
        placed(by_activity(found.drop_last(), times.drop_last()), stamped(found.last(), times.last()))
    }
}

/// The worktrees come out in order, each with its activity, and no other.
pub proof fn lemma_by_activity(found: Seq<WorktreeRecord>, times: Seq<OutcomeView>)
    requires
        found.len() == times.len(),
    ensures
        latest_first(by_activity(found, times)),
        by_activity(found, times).to_multiset() == Seq::new(
            found.len(),
            |i: int| stamped(found[i], times[i]),
        ).to_multiset(),
    decreases found.len(),
{
    let all = Seq::new(found.len(), |i: int| stamped(found[i], times[i]));
    if found.len() == 0 {
        assert(all == Seq::<WorktreeRecord>::empty());
    } else {
        let init = found.drop_last();
        let early = times.drop_last();
        lemma_by_activity(init, early);
        lemma_placed(by_activity(init, early), stamped(found.last(), times.last()));
        let before = Seq::new(init.len(), |i: int| stamped(init[i], early[i]));
        assert(all == before.push(stamped(found.last(), times.last())));
        vstd::seq_lib::to_multiset_build(before, stamped(found.last(), times.last()));
    }
}

/// A query that holds its answer keeps it.
pub proof fn lemma_worktrees_done_stays(
    result: Result<Seq<WorktreeRecord>, Seq<char>>,
    replies: Seq<ReplyView>,
)
    ensures
        (WorktreesView::Done { result }).run(replies) == (WorktreesView::Done { result }),
    decreases replies.len(),
{
    if replies.len() > 0 {
        lemma_worktrees_done_stays(result, replies.drop_first());
    }
}

proof fn lemma_stamping(found: Seq<WorktreeRecord>, times: Seq<OutcomeView>, i: int)
    requires
        0 <= i < found.len(),
        found.len() == times.len(),
    ensures
        (WorktreesView::Stamping {
            sorted: by_activity(found.take(i), times.take(i)),
            current: found[i],
            later: found.skip(i + 1),
        }).run(git_replies(times.skip(i))) == (WorktreesView::Done {
            result: Ok(shown(by_activity(found, times))),
        }),
    decreases found.len() - i,
{
    let state = WorktreesView::Stamping {
        sorted: by_activity(found.take(i), times.take(i)),
        current: found[i],
        later: found.skip(i + 1),
    };
    let replies = git_replies(times.skip(i));
    let later_replies = git_replies(times.skip(i + 1));
    assert(replies[0] == ReplyView::Git { outcome: times[i] });
    assert(replies.drop_first() == later_replies);
    assert(state.run(replies) == state.advance(replies[0]).run(later_replies));
    assert(found.take(i + 1).drop_last() == found.take(i));
    assert(times.take(i + 1).drop_last() == times.take(i));
    assert(found.take(i + 1).last() == found[i]);
    assert(times.take(i + 1).last() == times[i]);
    if i + 1 < found.len() {
        assert(found.skip(i + 1)[0] == found[i + 1]);
        assert(found.skip(i + 1).skip(1) == found.skip(i + 2));
        lemma_stamping(found, times, i + 1);
    } else {
        assert(found.take(i + 1) == found);
        assert(times.take(i + 1) == times);
        assert(later_replies.len() == 0);
    }
}

/// A query for the worktrees lists them, asks each for the time of its last
/// commit, and then holds them from the latest to the earliest, or none where
/// there is only one.
pub proof fn lemma_worktrees_run(listing: OutcomeView, times: Seq<OutcomeView>)
    requires
        listing.checked("Failed to execute git worktree list"@) is Ok,
        times.len() == worktree_list(
            listing.checked("Failed to execute git worktree list"@)->Ok_0,
        ).len(),
    ensures
        WorktreesView::Listing.run(seq![ReplyView::Git { outcome: listing }] + git_replies(times))
            == (WorktreesView::Done {
            result: Ok(
                shown(
                    by_activity(
                        worktree_list(
                            listing.checked("Failed to execute git worktree list"@)->Ok_0,
                        ),
                        times,
                    ),
                ),
            ),
        }),
{
    let found = worktree_list(listing.checked("Failed to execute git worktree list"@)->Ok_0);
    let replies = seq![ReplyView::Git { outcome: listing }] + git_replies(times);
    assert(replies[0] == ReplyView::Git { outcome: listing });
    assert(replies.drop_first() == git_replies(times));
    assert(WorktreesView::Listing.run(replies) == WorktreesView::Listing.advance(replies[0]).run(
        git_replies(times),
    ));
    if found.len() == 0 {
        assert(git_replies(times).len() == 0);
    } else {
        assert(times.skip(0) == times);
        assert(found.take(0) == Seq::<WorktreeRecord>::empty());
        lemma_stamping(found, times, 0);
    }
}

/// A single worktree is never shown: what is shown is nothing, or two
/// worktrees and more.
pub proof fn lemma_shown_is_not_one(worktrees: Seq<WorktreeRecord>)
    ensures
        shown(worktrees).len() != 1,
        shown(worktrees).len() > 0 ==> shown(worktrees) == worktrees,
{
}

} // verus!
