//! Review stacks: branches named `user/stack`, whose commits above a base are
//! reviewed one by one. This module reads the names, the stack configuration
//! and the commits of a stack.

use vstd::prelude::*;
use vstd::string::StringExecFns;
use crate::history::bar;
use crate::json::{count_at, document_of, number_at, string_at, text_at, Document};
use crate::split::{lines, parts, split_lines, split_on};
use crate::text::{
    chars_of, comes_before, find, find_from, is_space, lemma_text_lt_asymmetric,
    lemma_text_lt_transitive, pieces, string_of, strip_prefix, text_lt, trim, trimmed, views,
    without_prefix,
};

verus! {

/// One review stack of a repository.
#[derive(Debug, PartialEq, Eq)]
pub struct GgStackInfo {
    pub name: String,
    pub base: String,
    pub commit_count: usize,
    pub is_current: bool,
    pub username: String,
}

/// What a `GgStackInfo` holds.
pub struct StackRecord {
    pub name: Seq<char>,
    pub base: Seq<char>,
    pub commit_count: usize,
    pub is_current: bool,
    pub username: Seq<char>,
}

impl View for GgStackInfo {
    type V = StackRecord;

    open spec fn view(&self) -> StackRecord {
        StackRecord {
            name: self.name@,
            base: self.base@,
            commit_count: self.commit_count,
            is_current: self.is_current,
            username: self.username@,
        }
    }
}

/// One commit of a review stack.
#[derive(Debug, PartialEq, Eq)]
pub struct GgStackEntry {
    pub hash: String,
    pub short_hash: String,
    pub title: String,
    pub gg_id: Option<String>,
    pub mr_number: Option<u64>,
    pub position: usize,
}

/// What a `GgStackEntry` holds.
pub struct EntryRecord {
    pub hash: Seq<char>,
    pub short_hash: Seq<char>,
    pub title: Seq<char>,
    pub gg_id: Option<Seq<char>>,
    pub mr_number: Option<u64>,
    pub position: usize,
}

/// The text of an optional string.
pub open spec fn text_of(s: Option<String>) -> Option<Seq<char>> {
    match s {
        Some(t) => Some(t@),
        None => None,
    }
}

impl View for GgStackEntry {
    type V = EntryRecord;

    open spec fn view(&self) -> EntryRecord {
        EntryRecord {
            hash: self.hash@,
            short_hash: self.short_hash@,
            title: self.title@,
            gg_id: text_of(self.gg_id),
            mr_number: self.mr_number,
            position: self.position,
        }
    }
}

/// The separator of the two parts of a stack branch's name.
pub open spec fn slash() -> Seq<char> {
    seq!['/']
}

/// Whether `s` holds two hyphens in a row.
pub open spec fn has_double_hyphen(s: Seq<char>) -> bool {
    find(s, seq!['-', '-']) < s.len()
}

/// The name of the stack that the branch `branch` carries: what follows the
/// one slash of a name `user/stack`. A name with no slash or with several
/// carries no stack, nor does one whose second part holds `--`.
pub open spec fn stack_name(branch: Seq<char>) -> Option<Seq<char>> {
    let p = parts(branch, slash());
    if p.len() == 2 && !has_double_hyphen(p[1]) {
        Some(p[1])
    } else {
        None
    }
}

/// The user that the branch `branch` belongs to: what stands before its first
/// slash, or all of it where it has none.
pub open spec fn branch_user(branch: Seq<char>) -> Seq<char> {
    parts(branch, slash())[0]
}

/// The review id that one line of a commit's body gives: with the white space
/// at its ends gone, the line begins with `GG-ID:`, and the id is what
/// follows, again without white space at its ends.
pub open spec fn line_gg_id(line: Seq<char>) -> Option<Seq<char>> {
    match without_prefix(trimmed(line), "GG-ID:"@) {
        Some(rest) => Some(trimmed(rest)),
        None => None,
    }
}

/// The review id that the first of `ls` to give one gives.
pub open spec fn first_gg_id(ls: Seq<Seq<char>>) -> Option<Seq<char>>
    decreases ls.len(),
{
    if ls.len() == 0 {
        None
    } else {
        match line_gg_id(ls[0]) {
            Some(id) => Some(id),
            None => first_gg_id(ls.drop_first()),
        }
    }
}

/// The base that the configuration names for every stack that names none of
/// its own: the string at `defaults.base`, or `main`.
pub open spec fn default_base(config: Document) -> Seq<char> {
    match string_at(config, seq!["defaults"@, "base"@]) {
        Some(base) => base,
        None => "main"@,
    }
}

/// The base of the stack `stack`: the string at `stacks.<stack>.base`, or the
/// default.
pub open spec fn stack_base(config: Document, stack: Seq<char>) -> Seq<char> {
    match string_at(config, seq!["stacks"@, stack, "base"@]) {
        Some(base) => base,
        None => default_base(config),
    }
}

/// The number under which the commit with the review id `id` of the stack
/// `stack` is reviewed: the number at `stacks.<stack>.mrs.<id>`.
pub open spec fn mr_number(config: Document, stack: Seq<char>, id: Seq<char>) -> Option<u64> {
    number_at(config, seq!["stacks"@, stack, "mrs"@, id])
}

/// Whether the branch `branch` carries a stack.
pub fn is_stack_branch(branch: &str) -> (b: bool)
    ensures
        b == (stack_name(branch@) is Some),
{
    extract_stack_name(branch).is_some()
}

/// The name of the stack that the branch `branch` carries.
pub fn extract_stack_name(branch: &str) -> (name: Option<String>)
    ensures
        text_of(name) == stack_name(branch@),
{
    let text = chars_of(branch);
    stack_name_in(text.as_slice())
}

fn stack_name_in(branch: &[char]) -> (name: Option<String>)
    ensures
        text_of(name) == stack_name(branch@),
{
    let sep: Vec<char> = vec!['/'];
    let hyphens: Vec<char> = vec!['-', '-'];
    assert(sep@ == slash());
    assert(hyphens@ == seq!['-', '-']);
    let p = split_on(branch, sep.as_slice());
    if p.len() != 2 {
        return None;
    }
    assert(pieces(p@)[1] == p@[1]@);
    let second = p[1];
    assert(second@.skip(0) == second@);
    if find_from(second, 0, hyphens.as_slice()) < second.len() {
        None
    } else {
        Some(string_of(second))
    }
}

/// The user that the branch `branch` belongs to. There always is one.
pub fn extract_username_from_branch(branch: &str) -> (user: Option<String>)
    ensures
        text_of(user) == Some(branch_user(branch@)),
{
    let text = chars_of(branch);
    let sep: Vec<char> = vec!['/'];
    assert(sep@ == slash());
    let p = split_on(text.as_slice(), sep.as_slice());
    proof {
        lemma_parts_nonempty(branch@, slash());
    }
    assert(pieces(p@)[0] == p@[0]@);
    Some(string_of(p[0]))
}

/// A split gives at least one piece.
pub proof fn lemma_parts_nonempty(s: Seq<char>, sep: Seq<char>)
    ensures
        parts(s, sep).len() >= 1,
{
}

fn gg_id_in(ls: &Vec<&[char]>, from: usize) -> (id: Option<String>)
    requires
        from <= ls.len(),
    ensures
        text_of(id) == first_gg_id(pieces(ls@).skip(from as int)),
{
    let key = chars_of("GG-ID:");
    let mut i: usize = from;
    while i < ls.len()
        invariant
            from <= i <= ls.len(),
            key@ == "GG-ID:"@,
            first_gg_id(pieces(ls@).skip(from as int)) == first_gg_id(pieces(ls@).skip(i as int)),
        decreases ls.len() - i,
    {
        let ghost rest = pieces(ls@).skip(i as int);
        proof {
            assert(rest[0] == ls@[i as int]@);
            assert(rest.drop_first() == pieces(ls@).skip(i + 1));
        }
        match strip_prefix(trim(ls[i]), key.as_slice()) {
            Some(rest) => {
                return Some(string_of(trim(rest)));
            },
            None => {},
        }
        i += 1;
    }
    None
}

/// The review id of a commit: that of the first line of its body to give one.
pub fn extract_gg_id(commit_body: &str) -> (id: Option<String>)
    ensures
        text_of(id) == first_gg_id(lines(commit_body@)),
{
    let text = chars_of(commit_body);
    let ls = split_lines(text.as_slice());
    assert(pieces(ls@).skip(0) == pieces(ls@));
    gg_id_in(&ls, 0)
}

/// The base that `config` names for stacks that name none.
pub fn get_default_base(config: &serde_json::Value) -> (base: String)
    ensures
        base@ == default_base(document_of(*config)),
{
    let path: Vec<&str> = vec!["defaults", "base"];
    assert(crate::json::names(path@) == seq!["defaults"@, "base"@]);
    match text_at(config, &path) {
        Some(base) => base,
        None => "main".to_owned(),
    }
}

/// The base of the stack `stack_name`.
pub fn get_stack_base(config: &serde_json::Value, stack_name: &str) -> (base: String)
    ensures
        base@ == stack_base(document_of(*config), stack_name@),
{
    let path: Vec<&str> = vec!["stacks", stack_name, "base"];
    assert(crate::json::names(path@) == seq!["stacks"@, stack_name@, "base"@]);
    match text_at(config, &path) {
        Some(base) => base,
        None => get_default_base(config),
    }
}

/// The number under which a commit of the stack `stack_name` is reviewed.
pub fn get_mr_number(config: &serde_json::Value, stack_name: &str, gg_id: &str) -> (number: Option<
    u64,
>)
    ensures
        number == mr_number(document_of(*config), stack_name@, gg_id@),
{
    let path: Vec<&str> = vec!["stacks", stack_name, "mrs", gg_id];
    assert(crate::json::names(path@) == seq!["stacks"@, stack_name@, "mrs"@, gg_id@]);
    count_at(config, &path)
}

/// What one block of a stack's log says of its commit.
pub struct EntryFields {
    pub hash: Seq<char>,
    pub short_hash: Seq<char>,
    pub title: Seq<char>,
    pub gg_id: Option<Seq<char>>,
}

/// The mark that ends each commit of a stack's log: the character with the
/// code 0, which no commit message holds.
pub open spec fn end_mark() -> Seq<char> {
    seq!['\0']
}

/// The number of lines at the start of `ls` that hold nothing but white space.
pub open spec fn blank_start(ls: Seq<Seq<char>>) -> nat
    decreases ls.len(),
{
    if ls.len() == 0 || trimmed(ls[0]).len() > 0 {
        0
    } else {
        1 + blank_start(ls.drop_first())
    }
}

/// What one block of a stack's log stands for. The header is the first line
/// of the block that holds more than white space, and reads
/// `hash|short hash|title`. Every line after the header belongs to the body,
/// blank ones too, and the review id is looked for in all of them. A block
/// without a header, or with a header of fewer than three fields, stands for
/// nothing.
pub open spec fn entry_fields(block: Seq<char>) -> Option<EntryFields> {
    let ls = lines(block);
    let at = blank_start(ls) as int;
    if at >= ls.len() {
        None
    } else {
        let header = parts(ls[at], bar());
        if header.len() < 3 {
            None
        } else {
            Some(
                EntryFields {
                    hash: header[0],
                    short_hash: header[1],
                    title: header[2],
                    gg_id: first_gg_id(ls.skip(at + 1)),
                },
            )
        }
    }
}

/// `entry_fields` as a function of the block.
pub open spec fn entry_fields_of() -> spec_fn(Seq<char>) -> Option<EntryFields> {
    |block: Seq<char>| entry_fields(block)
}

/// The entry of the `i`-th commit of the stack `stack`, with the number under
/// which the configuration has its review id.
pub open spec fn entry_record(f: EntryFields, config: Document, stack: Seq<char>, i: int) -> EntryRecord {
    EntryRecord {
        hash: f.hash,
        short_hash: f.short_hash,
        title: f.title,
        gg_id: f.gg_id,
        mr_number: match f.gg_id {
            Some(id) => mr_number(config, stack, id),
            None => None,
        },
        position: i as usize,
    }
}

/// The entries of a stack: one for each block of its log that stands for a
/// commit. The log holds, for each commit, the header on a line of its own,
/// then the body, then the end mark; a block is what stands between two
/// marks. The log runs from the oldest commit to the newest, and so do the
/// positions, from 0 on and without a gap.
pub open spec fn stack_entries(log: Seq<char>, config: Document, stack: Seq<char>) -> Seq<
    EntryRecord,
> {
    let found = parts(log, end_mark()).filter_map(entry_fields_of());
    Seq::new(found.len(), |i: int| entry_record(found[i], config, stack, i))
}

fn stack_entry(
    block: &[char],
    config: &serde_json::Value,
    stack_name: &str,
    position: usize,
) -> (r: Option<GgStackEntry>)
    ensures
        match r {
            Some(e) => entry_fields(block@) is Some && e@ == entry_record(
                entry_fields(block@)->0,
                document_of(*config),
                stack_name@,
                position as int,
            ),
            None => entry_fields(block@) is None,
        },
{
    let ls = split_lines(block);
    let mut at: usize = 0;
    assert(pieces(ls@).skip(0) == pieces(ls@));
    while at < ls.len() && trim(ls[at]).len() == 0
        invariant
            at <= ls.len(),
            blank_start(pieces(ls@)) == at + blank_start(pieces(ls@).skip(at as int)),
        decreases ls.len() - at,
    {
        proof {
            let rest = pieces(ls@).skip(at as int);
            assert(rest[0] == ls@[at as int]@);
            assert(rest.drop_first() == pieces(ls@).skip(at + 1));
        }
        at += 1;
    }
    proof {
        let rest = pieces(ls@).skip(at as int);
        if at < ls.len() {
            assert(rest[0] == ls@[at as int]@);
        }
    }
    if at >= ls.len() {
        return None;
    }
    let sep: Vec<char> = vec!['|'];
    assert(sep@ == bar());
    assert(pieces(ls@)[at as int] == ls@[at as int]@);
    let header = split_on(ls[at], sep.as_slice());
    if header.len() < 3 {
        return None;
    }
    assert(forall|i: int| 0 <= i < header.len() ==> pieces(header@)[i] == (#[trigger] header@[i])@);
    let gg_id = gg_id_in(&ls, at + 1);
    let mr_number = match &gg_id {
        Some(id) => get_mr_number(config, stack_name, id.as_str()),
        None => None,
    };
    Some(
        GgStackEntry {
            hash: string_of(header[0]),
            short_hash: string_of(header[1]),
            title: string_of(header[2]),
            gg_id,
            mr_number,
            position,
        },
    )
}

/// Parses the log of a stack, printed oldest commit first with the format
/// `%H|%h|%s%n%b%x00`: one entry for each block that stands for a commit. The
/// entries are numbered in their order, from 0 on.
pub fn parse_stack_entries(log: &str, config: &serde_json::Value, stack_name: &str) -> (entries:
    Vec<GgStackEntry>)
    ensures
        views(entries@) == stack_entries(log@, document_of(*config), stack_name@),
        forall|i: int| 0 <= i < entries.len() ==> (#[trigger] entries[i]).position == i,
{
    let text = chars_of(log);
    let mark: Vec<char> = vec!['\0'];
    assert(mark@ == end_mark());
    let blocks = split_on(text.as_slice(), mark.as_slice());
    let mut entries: Vec<GgStackEntry> = Vec::new();
    let ghost f = entry_fields_of();
    for i in 0..blocks.len()
        invariant
            pieces(blocks@) == parts(log@, end_mark()),
            f == entry_fields_of(),
            ({
                let found = pieces(blocks@).take(i as int).filter_map(f);
                views(entries@) == Seq::new(
                    found.len(),
                    |j: int| entry_record(found[j], document_of(*config), stack_name@, j),
                )
            }),
    {
        proof {
            pieces(blocks@).lemma_filter_map_take_succ(f, i as int);
        }
        let ghost found = pieces(blocks@).take(i as int).filter_map(f);
        let ghost before = views(entries@);
        match stack_entry(blocks[i], config, stack_name, entries.len()) {
            Some(entry) => {
                entries.push(entry);
                proof {
                    let more = found.push(entry_fields(blocks@[i as int]@)->0);
                    assert(views(entries@) == before.push(entry@));
                    assert(views(entries@) == Seq::new(
                        more.len(),
                        |j: int| entry_record(more[j], document_of(*config), stack_name@, j),
                    ));
                }
            },
            None => {},
        }
    }
    assert(pieces(blocks@).take(blocks.len() as int) == pieces(blocks@));
    assert forall|i: int| 0 <= i < entries.len() implies (#[trigger] entries[i]).position == i by {
        assert(views(entries@)[i] == entries@[i]@);
    }
    entries
}

/// The first of the branches `ls` that carries the stack `stack`.
pub open spec fn first_branch_of(ls: Seq<Seq<char>>, stack: Seq<char>) -> Option<Seq<char>>
    decreases ls.len(),
{
    if ls.len() == 0 {
        None
    } else if stack_name(ls[0]) == Some(stack) {
        Some(ls[0])
    } else {
        first_branch_of(ls.drop_first(), stack)
    }
}

/// The branch that carries the stack `stack`: the first such line of a
/// listing of branches.
pub open spec fn stack_branch(branches: Seq<char>, stack: Seq<char>) -> Option<Seq<char>> {
    first_branch_of(lines(branches), stack)
}

/// The branch that carries the stack `stack_name`.
pub fn find_stack_branch(branches: &str, stack_name: &str) -> (branch: Option<String>)
    ensures
        text_of(branch) == stack_branch(branches@, stack_name@),
{
    let text = chars_of(branches);
    let wanted = chars_of(stack_name);
    let ls = split_lines(text.as_slice());
    let mut i: usize = 0;
    assert(pieces(ls@).skip(0) == pieces(ls@));
    while i < ls.len()
        invariant
            i <= ls.len(),
            wanted@ == stack_name@,
            pieces(ls@) == lines(branches@),
            first_branch_of(pieces(ls@), stack_name@) == first_branch_of(
                pieces(ls@).skip(i as int),
                stack_name@,
            ),
        decreases ls.len() - i,
    {
        let ghost rest = pieces(ls@).skip(i as int);
        proof {
            assert(rest[0] == ls@[i as int]@);
            assert(rest.drop_first() == pieces(ls@).skip(i + 1));
        }
        match stack_name_in(ls[i]) {
            Some(name) => {
                let found = chars_of(name.as_str());
                if crate::text::same(found.as_slice(), wanted.as_slice()) {
                    return Some(string_of(ls[i]));
                }
            },
            None => {},
        }
        i += 1;
    }
    None
}

/// The revisions that a stack holds: what its branch has and its base has
/// not, which git writes `base..branch`.
pub open spec fn stack_range(base: Seq<char>, branch: Seq<char>) -> Seq<char> {
    base + ".."@ + branch
}

/// The revisions that a stack holds.
pub fn stack_range_of(base: &str, branch: &str) -> (range: String)
    ensures
        range@ == stack_range(base@, branch@),
{
    let mut range = base.to_owned();
    range.append("..");
    range.append(branch);
    range
}

/// Where a stack of the name `name` goes in a list that is sorted by name:
/// before the first whose name comes after it.
pub open spec fn name_slot(list: Seq<StackRecord>, name: Seq<char>) -> int
    decreases list.len(),
{
    if list.len() == 0 || text_lt(name, list[0].name) {
        0
    } else {
        1 + name_slot(list.drop_first(), name)
    }
}

/// `list` with `stack` put in at its place.
pub open spec fn placed_by_name(list: Seq<StackRecord>, stack: StackRecord) -> Seq<StackRecord> {
    list.insert(name_slot(list, stack.name), stack)
}

/// Whether `list` is sorted by name.
pub open spec fn sorted_by_name(list: Seq<StackRecord>) -> bool {
    forall|i: int, j: int| 0 <= i < j < list.len() ==> !text_lt(list[j].name, list[i].name)
}

/// The slot lies in the list, behind names that do not come after `name` and
/// before one that does.
pub proof fn lemma_name_slot(list: Seq<StackRecord>, name: Seq<char>)
    ensures
        0 <= name_slot(list, name) <= list.len(),
        forall|i: int| 0 <= i < name_slot(list, name) ==> !text_lt(name, (#[trigger] list[i]).name),
        name_slot(list, name) < list.len() ==> text_lt(name, list[name_slot(list, name)].name),
    decreases list.len(),
{
    if list.len() == 0 || text_lt(name, list[0].name) {
    } else {
        let rest = list.drop_first();
        lemma_name_slot(rest, name);
        assert forall|i: int| 0 <= i < name_slot(list, name) implies !text_lt(
            name,
            (#[trigger] list[i]).name,
        ) by {
            if i > 0 {
                assert(list[i] == rest[i - 1]);
            }
        }
        if name_slot(list, name) < list.len() {
            assert(list[name_slot(list, name)] == rest[name_slot(rest, name)]);
        }
    }
}

/// Putting a stack in at its place keeps the list sorted, and adds that stack
/// and nothing else.
pub proof fn lemma_placed_by_name(list: Seq<StackRecord>, stack: StackRecord)
    requires
        sorted_by_name(list),
    ensures
        sorted_by_name(placed_by_name(list, stack)),
        placed_by_name(list, stack).to_multiset() == list.to_multiset().insert(stack),
{
    let k = name_slot(list, stack.name);
    lemma_name_slot(list, stack.name);
    let out = placed_by_name(list, stack);
    assert forall|i: int, j: int| 0 <= i < j < out.len() implies !text_lt(
        out[j].name,
        out[i].name,
    ) by {
        if j < k {
            assert(out[i] == list[i] && out[j] == list[j]);
        } else if j == k {
            assert(out[i] == list[i]);
        } else if i < k {
            assert(out[i] == list[i] && out[j] == list[j - 1]);
        } else if i == k {
            assert(out[j] == list[j - 1]);
            if text_lt(list[j - 1].name, stack.name) {
                lemma_text_lt_transitive(list[j - 1].name, stack.name, list[k].name);
                if j - 1 == k {
                    lemma_text_lt_asymmetric(stack.name, list[k].name);
                }
            }
        } else {
            assert(out[i] == list[i - 1] && out[j] == list[j - 1]);
        }
    }
    vstd::seq_lib::to_multiset_insert(list, k, stack);
}

/// Puts `stack` into `list` at its place.
pub fn place_by_name(list: &mut Vec<GgStackInfo>, stack: GgStackInfo)
    ensures
        views(final(list)@) == placed_by_name(views(old(list)@), stack@),
{
    let name = chars_of(stack.name.as_str());
    let mut k: usize = 0;
    let ghost all = views(list@);
    assert(all.skip(0) == all);
    loop
        invariant_except_break
            k <= list.len(),
            name_slot(all, stack.name@) == k + name_slot(all.skip(k as int), stack.name@),
        invariant
            name@ == stack.name@,
            all == views(list@),
            *list == *old(list),
        ensures
            k <= list.len(),
            name_slot(all, stack.name@) == k,
        decreases list.len() - k,
    {
        let ghost rest = all.skip(k as int);
        if k >= list.len() {
            break;
        }
        proof {
            assert(rest[0] == list@[k as int]@);
            assert(rest.drop_first() == all.skip(k + 1));
        }
        let here = chars_of(list[k].name.as_str());
        if comes_before(name.as_slice(), here.as_slice()) {
            break;
        }
        k += 1;
    }
    list.insert(k, stack);
    assert(views(list@) == all.insert(k as int, stack@));
}

/// A branch `user/name` carries the stack `name` for the user `user`, where
/// neither part holds a slash and the name holds no `--`. A branch with a
/// third part, or with `--` in its name, carries none.
pub proof fn lemma_stack_branch(user: Seq<char>, name: Seq<char>, more: Seq<char>)
    requires
        !user.contains('/'),
        !name.contains('/'),
    ensures
        branch_user(user + slash() + name) == user,
        stack_name(user + slash() + name) == if has_double_hyphen(name) {
            None
        } else {
            Some(name)
        },
        stack_name(user + slash() + name + slash() + more) is None,
        stack_name(user) is None,
{
    crate::split::lemma_parts_one(user, '/');
    crate::split::lemma_parts_one(name, '/');
    crate::split::lemma_parts_concat(user, name, '/');
    assert(parts(user + slash() + name, slash()) == seq![user, name]);
    crate::split::lemma_parts_concat(name, more, '/');
    crate::split::lemma_parts_concat(user, name + slash() + more, '/');
    crate::split::lemma_joined_parts(more, '/');
    assert(user + slash() + (name + slash() + more) == user + slash() + name + slash() + more);
}

/// Whether `s` is a text with no white space at either end, on one line.
pub open spec fn is_bare(s: Seq<char>) -> bool {
    s.len() > 0 && !is_space(s[0]) && !is_space(s.last()) && !s.contains('\n')
}

/// Whether `s` can be a field of a header: it holds neither a bar nor a line
/// feed.
pub open spec fn is_header_field(s: Seq<char>) -> bool {
    !s.contains('|') && !s.contains('\n')
}

/// The header of a commit: its three fields with bars between them.
pub open spec fn entry_header(hash: Seq<char>, short_hash: Seq<char>, title: Seq<char>) -> Seq<
    char,
> {
    hash + bar() + short_hash + bar() + title
}

/// The block of a commit whose body is the one line that gives its review
/// id: the header, then that line, each ended by a line feed.
pub open spec fn entry_block(
    hash: Seq<char>,
    short_hash: Seq<char>,
    title: Seq<char>,
    id: Seq<char>,
) -> Seq<char> {
    entry_header(hash, short_hash, title) + seq!['\n'] + ("GG-ID: "@ + id) + seq!['\n']
}

/// The line `GG-ID: <id>` gives the review id `<id>`.
pub proof fn lemma_id_line(id: Seq<char>)
    requires
        is_bare(id),
    ensures
        line_gg_id("GG-ID: "@ + id) == Some(id),
        !("GG-ID: "@ + id).contains('\n'),
        ("GG-ID: "@ + id).last() != '\r',
{
    reveal_strlit("GG-ID: ");
    reveal_strlit("GG-ID:");
    let line = "GG-ID: "@ + id;
    assert(line[0] == 'G');
    assert(line.last() == id.last());
    crate::text::lemma_trimmed_bare(line);
    let key = "GG-ID:"@;
    assert(line.take(key.len() as int) == key);
    let rest = line.skip(key.len() as int);
    assert(rest == seq![' '] + id);
    assert(rest[0] == ' ');
    assert(rest.drop_first() == id);
    crate::text::lemma_trimmed_bare(id);
    assert(trimmed(rest) == id);
    if line.contains('\n') {
        let i = choose|i: int| 0 <= i < line.len() && line[i] == '\n';
        if i >= 7 {
            assert(id[i - 7] == '\n');
            assert(id.contains('\n'));
        }
    }
}

/// The block of a commit whose body is the line `GG-ID: <id>` stands for that
/// commit with that review id: an id on the first line of the body is found.
pub proof fn lemma_entry_block(
    hash: Seq<char>,
    short_hash: Seq<char>,
    title: Seq<char>,
    id: Seq<char>,
)
    requires
        hash.len() > 0,
        !is_space(hash[0]),
        is_header_field(hash),
        is_header_field(short_hash),
        is_header_field(title),
        title.len() > 0 ==> title.last() != '\r',
        is_bare(id),
    ensures
        entry_fields(entry_block(hash, short_hash, title, id)) == Some(
            EntryFields { hash, short_hash, title, gg_id: Some(id) },
        ),
{
    broadcast use vstd::seq_lib::lemma_seq_concat_contains_all_elements;

    let header = entry_header(hash, short_hash, title);
    let id_line = "GG-ID: "@ + id;
    let block = entry_block(hash, short_hash, title, id);
    lemma_id_line(id);
    assert(!bar().contains('\n')) by {
        if bar().contains('\n') {
            let i = choose|i: int| 0 <= i < bar().len() && bar()[i] == '\n';
        }
    }
    assert(!header.contains('\n'));
    assert(header.len() > 0 && header[0] == hash[0]);
    assert(header.last() != '\r') by {
        if title.len() > 0 {
            assert(header.last() == title.last());
        } else {
            assert(header == hash + bar() + short_hash + bar());
            assert(header.last() == '|');
        }
    }
    crate::split::lemma_lines_single(header);
    crate::split::lemma_lines_single(id_line);
    crate::split::lemma_lines_concat(header + seq!['\n'], id_line + seq!['\n']);
    assert(block == (header + seq!['\n']) + (id_line + seq!['\n']));
    let ls = lines(block);
    assert(ls == seq![header, id_line]);
    crate::text::lemma_trimmed_first(header);
    assert(blank_start(ls) == 0);
    crate::split::lemma_parts_one(hash, '|');
    crate::split::lemma_parts_one(short_hash, '|');
    crate::split::lemma_parts_one(title, '|');
    crate::split::lemma_parts_concat(short_hash, title, '|');
    crate::split::lemma_parts_concat(hash, short_hash + bar() + title, '|');
    assert(hash + bar() + (short_hash + bar() + title) == header);
    assert(parts(header, bar()) == seq![hash, short_hash, title]);
    let body = ls.skip(1);
    assert(body == seq![id_line]);
    assert(body[0] == id_line);
}

/// The log of one commit whose body is the line `GG-ID: <id>`, as git prints
/// it with the end mark, gives one entry: at position 0, with that review id,
/// and with the number that the configuration has for the id.
pub proof fn lemma_single_commit_log(
    hash: Seq<char>,
    short_hash: Seq<char>,
    title: Seq<char>,
    id: Seq<char>,
    config: Document,
    stack: Seq<char>,
)
    requires
        hash.len() > 0,
        !is_space(hash[0]),
        is_header_field(hash),
        is_header_field(short_hash),
        is_header_field(title),
        title.len() > 0 ==> title.last() != '\r',
        is_bare(id),
        !entry_block(hash, short_hash, title, id).contains('\0'),
    ensures
        stack_entries(
            entry_block(hash, short_hash, title, id) + end_mark() + seq!['\n'],
            config,
            stack,
        ) == seq![
            EntryRecord {
                hash,
                short_hash,
                title,
                gg_id: Some(id),
                mr_number: mr_number(config, stack, id),
                position: 0,
            },
        ],
{
    let block = entry_block(hash, short_hash, title, id);
    let tail = seq!['\n'];
    let log = block + end_mark() + tail;
    lemma_entry_block(hash, short_hash, title, id);
    assert(!tail.contains('\0')) by {
        if tail.contains('\0') {
            let i = choose|i: int| 0 <= i < tail.len() && tail[i] == '\0';
        }
    }
    crate::split::lemma_parts_one(block, '\0');
    crate::split::lemma_parts_one(tail, '\0');
    crate::split::lemma_parts_concat(block, tail, '\0');
    let blocks = parts(log, end_mark());
    assert(blocks == seq![block, tail]);
    assert(Seq::<char>::empty() + seq!['\n'] == tail);
    crate::split::lemma_lines_single(Seq::<char>::empty());
    assert(lines(tail) == seq![Seq::<char>::empty()]);
    let one = lines(tail);
    assert(one[0] == Seq::<char>::empty());
    assert(crate::text::trimmed_start(one[0]) == one[0]);
    assert(trimmed(one[0]).len() == 0);
    assert(one.drop_first().len() == 0);
    assert(blank_start(one.drop_first()) == 0);
    assert(blank_start(one) == 1);
    assert(entry_fields(tail) is None);
    assert(blocks.drop_last() == seq![block]);
    assert(blocks.last() == tail);
    Seq::lemma_filter_map_singleton(block, entry_fields_of());
    let found = blocks.filter_map(entry_fields_of());
    assert(found == seq![entry_fields(block)->0]);
}

} // verus!
