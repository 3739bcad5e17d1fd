//! Queries on the review stacks of a repository. The stack state lives in the
//! directory `gg` of the git directory. A repository without a place for it,
//! or without a file `config.json` there, has no stacks: its queries answer
//! with nothing, not with an error. A `config.json` that is there and holds
//! no JSON is an error.

use vstd::prelude::*;
use vstd::string::StringExecFns;
use crate::git::{
    not_started, result_text, DotGit, DotGitView, Outcome, OutcomeView, Reply, ReplyView, Request,
    RequestView, StateDir, StateDirView,
};
use crate::json::{document_of, json_read, parse_json, Document};
use crate::number::{parse_unsigned, unsigned_within};
use crate::query::trimmed_string;
use crate::split::{lines, split_lines};
use crate::stack::{
    branch_user, find_stack_branch, get_stack_base, parse_stack_entries, place_by_name,
    placed_by_name, sorted_by_name, stack_base, stack_branch, stack_entries, stack_name,
    stack_range, stack_range_of, text_of, EntryRecord, GgStackEntry, GgStackInfo, StackRecord,
};
use crate::text::{
    chars_of, pieces, same, string_of, strip_prefix, trim, trimmed, views, without_prefix,
};

verus! {

/// Where the stack state of a repository lives, going by what its `.git` is.
/// In an ordinary repository that is the `.git` directory. In a linked
/// worktree `.git` is a file that reads `gitdir: <path>`, and the state lives
/// in the directory at that path. Anything else has no place for it.
pub open spec fn state_dir(found: DotGitView) -> Option<StateDirView> {
    match found {
        DotGitView::Directory => Some(StateDirView::Repository),
        DotGitView::File { content } => match content {
            Some(text) => match without_prefix(trimmed(text), "gitdir:"@) {
                Some(path) => Some(StateDirView::Linked { gitdir: trimmed(path) }),
                None => None,
            },
            None => None,
        },
        _ => None,
    }
}

/// What an optional state directory holds.
pub open spec fn state_dir_view(dir: Option<StateDir>) -> Option<StateDirView> {
    match dir {
        Some(d) => Some(d@),
        None => None,
    }
}

/// Where the stack state of a repository lives.
pub fn resolve_gg_dir(found: &DotGit) -> (dir: Option<StateDir>)
    ensures
        state_dir_view(dir) == state_dir(found@),
{
    match found {
        DotGit::Directory => Some(StateDir::Repository),
        DotGit::File { content } => match content {
            Some(text) => {
                let chars = chars_of(text.as_str());
                let key = chars_of("gitdir:");
                match strip_prefix(trim(chars.as_slice()), key.as_slice()) {
                    Some(path) => Some(StateDir::Linked { gitdir: string_of(trim(path)) }),
                    None => None,
                }
            },
            None => None,
        },
        _ => None,
    }
}

/// What is made of the text of a `config.json` that is there: the document
/// it holds. A file that cannot be read and a text that is no JSON are
/// errors.
pub open spec fn loaded(content: Result<Seq<char>, Seq<char>>) -> Result<Document, Seq<char>> {
    match content {
        Ok(text) => match json_read(text) {
            Ok(doc) => Ok(doc),
            Err(words) => Err("Failed to parse git-gud config: "@ + words),
        },
        Err(reason) => Err(not_started("Failed to read gg config"@, reason)),
    }
}

/// Reads the stack configuration from what reading `config.json` gave.
pub fn read_gg_config(content: Result<String, String>) -> (r: Result<serde_json::Value, String>)
    ensures
        match r {
            Ok(config) => loaded(result_text(content)) == Ok::<Document, Seq<char>>(
                document_of(config),
            ),
            Err(m) => loaded(result_text(content)) == Err::<Document, Seq<char>>(m@),
        },
{
    match content {
        Ok(text) => match parse_json(text.as_str()) {
            Ok(config) => Ok(config),
            Err(words) => {
                let mut m = "Failed to parse git-gud config: ".to_owned();
                m.append(words.as_str());
                Err(m)
            },
        },
        Err(reason) => {
            let mut m = "Failed to read gg config".to_owned();
            m.append(": ");
            m.append(reason.as_str());
            Err(m)
        },
    }
}

/// The branch of the current stack, going by what reading the file
/// `current_stack` gave: its text without the white space at its ends, and
/// none where the file could not be read.
pub open spec fn current_stack(content: Result<Seq<char>, Seq<char>>) -> Option<Seq<char>> {
    match content {
        Ok(text) => Some(trimmed(text)),
        Err(_) => None,
    }
}

/// The branch of the current stack.
pub fn get_current_stack(content: Result<String, String>) -> (r: Option<String>)
    ensures
        text_of(r) == current_stack(result_text(content)),
{
    match content {
        Ok(text) => Some(trimmed_string(text.as_str())),
        Err(_) => None,
    }
}

/// The query whether a repository has stacks, under way.
#[derive(Debug, PartialEq, Eq)]
pub enum HasStacks {
    /// What `.git` is is asked.
    Locating,
    /// Whether the state directory holds `config.json` is asked.
    Checking { dir: StateDir },
    /// The answer.
    Done { present: bool },
}

/// What a `HasStacks` holds.
pub enum HasStacksView {
    Locating,
    Checking { dir: StateDirView },
    Done { present: bool },
}

impl View for HasStacks {
    type V = HasStacksView;

    open spec fn view(&self) -> HasStacksView {
        match self {
            HasStacks::Locating => HasStacksView::Locating,
            HasStacks::Checking { dir } => HasStacksView::Checking { dir: dir@ },
            HasStacks::Done { present } => HasStacksView::Done { present: *present },
        }
    }
}

impl HasStacksView {
    /// What the query asks for next; nothing once it holds its answer.
    pub open spec fn pending(self) -> Option<RequestView> {
        match self {
            HasStacksView::Locating => Some(RequestView::InspectDotGit),
            HasStacksView::Checking { dir } => Some(
                RequestView::StateFileExists { dir, name: "config.json"@ },
            ),
            HasStacksView::Done { present } => None,
        }
    }

    /// The query after `reply`. A repository without a place for the stack
    /// state has no stacks. A reply that does not answer what the query asked
    /// for leaves it as it is.
    pub open spec fn advance(self, reply: ReplyView) -> HasStacksView {
        match (self, reply) {
            (HasStacksView::Locating, ReplyView::DotGit { found }) => match state_dir(found) {
                Some(dir) => HasStacksView::Checking { dir },
                None => HasStacksView::Done { present: false },
            },
            (HasStacksView::Checking { dir }, ReplyView::Exists { present }) => {
                HasStacksView::Done { present }
            },
            _ => self,
        }
    }
}

/// The query whether a repository has stacks.
pub fn has_gg_stacks() -> (q: HasStacks)
    ensures
        q@ == HasStacksView::Locating,
{
    HasStacks::Locating
}

fn copy_dir(dir: &StateDir) -> (c: StateDir)
    ensures
        c@ == dir@,
{
    match dir {
        StateDir::Repository => StateDir::Repository,
        StateDir::Linked { gitdir } => StateDir::Linked { gitdir: gitdir.clone() },
    }
}

impl HasStacks {
    /// What the query asks for next; nothing once it holds its answer.
    pub fn pending(&self) -> (r: Option<Request>)
        ensures
            match r {
                Some(request) => self@.pending() == Some(request@),
                None => self@.pending() is None,
            },
    {
        match self {
            HasStacks::Locating => Some(Request::InspectDotGit),
            HasStacks::Checking { dir } => Some(
                Request::StateFileExists { dir: copy_dir(dir), name: "config.json".to_owned() },
            ),
            HasStacks::Done { present } => None,
        }
    }

    /// The query after `reply`.
    pub fn advance(self, reply: Reply) -> (next: HasStacks)
        ensures
            next@ == self@.advance(reply@),
    {
        match self {
            HasStacks::Locating => match reply {
                Reply::DotGit { found } => match resolve_gg_dir(&found) {
                    Some(dir) => HasStacks::Checking { dir },
                    None => HasStacks::Done { present: false },
                },
                _ => HasStacks::Locating,
            },
            HasStacks::Checking { dir } => match reply {
                Reply::Exists { present } => HasStacks::Done { present },
                _ => HasStacks::Checking { dir },
            },
            HasStacks::Done { present } => HasStacks::Done { present },
        }
    }

    /// The answer, once the query holds it.
    pub fn finish(self) -> (r: Option<bool>)
        ensures
            match r {
                Some(present) => self@ == (HasStacksView::Done { present }),
                None => !(self@ is Done),
            },
    {
        match self {
            HasStacks::Done { present } => Some(present),
            _ => None,
        }
    }
}

/// A stack that a branch listing names, before its commits are counted.
#[derive(Debug, PartialEq, Eq)]
pub struct StackSeed {
    pub name: String,
    pub branch: String,
    pub base: String,
    pub username: String,
}

/// What a `StackSeed` holds.
pub struct SeedRecord {
    pub name: Seq<char>,
    pub branch: Seq<char>,
    pub base: Seq<char>,
    pub username: Seq<char>,
}

impl View for StackSeed {
    type V = SeedRecord;

    open spec fn view(&self) -> SeedRecord {
        SeedRecord {
            name: self.name@,
            branch: self.branch@,
            base: self.base@,
            username: self.username@,
        }
    }
}

/// Whether one of `seeds` has the name `name`.
pub open spec fn has_name(seeds: Seq<SeedRecord>, name: Seq<char>) -> bool {
    exists|i: int| 0 <= i < seeds.len() && (#[trigger] seeds[i]).name == name
}

/// The stacks that the branches `branches` carry, in their order. Of several
/// branches that carry a stack of the same name, the first counts.
pub open spec fn seeds(branches: Seq<Seq<char>>, config: Document) -> Seq<SeedRecord>
    decreases branches.len(),
{
    if branches.len() == 0 {
        Seq::empty()
    } else {
        let before = seeds(branches.drop_last(), config);
        let branch = branches.last();
        match stack_name(branch) {
            Some(name) => if has_name(before, name) {
                before
            } else {
                before.push(
                    SeedRecord {
                        name,
                        branch,
                        base: stack_base(config, name),
                        username: branch_user(branch),
                    },
                )
            },
            None => before,
        }
    }
}

/// No two of the stacks that a listing carries have the same name.
pub proof fn lemma_seeds_differ(branches: Seq<Seq<char>>, config: Document)
    ensures
        forall|i: int, j: int|
            0 <= i < j < seeds(branches, config).len() ==> seeds(branches, config)[i].name
                != seeds(branches, config)[j].name,
    decreases branches.len(),
{
    if branches.len() > 0 {
        lemma_seeds_differ(branches.drop_last(), config);
        let before = seeds(branches.drop_last(), config);
        let all = seeds(branches, config);
        assert forall|i: int, j: int| 0 <= i < j < all.len() implies all[i].name
            != all[j].name by {
            if j < before.len() {
                assert(all[i] == before[i] && all[j] == before[j]);
            } else {
                assert(all[i] == before[i]);
            }
        }
    }
}

fn named(list: &Vec<StackSeed>, name: &[char]) -> (b: bool)
    ensures
        b == has_name(views(list@), name@),
{
    let mut i: usize = 0;
    while i < list.len()
        invariant
            i <= list.len(),
            forall|j: int| 0 <= j < i ==> (#[trigger] views(list@)[j]).name != name@,
        decreases list.len() - i,
    {
        assert(views(list@)[i as int] == list@[i as int]@);
        let here = chars_of(list[i].name.as_str());
        if same(here.as_slice(), name) {
            return true;
        }
        i += 1;
    }
    false
}

/// The stacks that a listing of branches carries.
pub fn stack_seeds(branches: &str, config: &serde_json::Value) -> (list: Vec<StackSeed>)
    ensures
        views(list@) == seeds(lines(branches@), document_of(*config)),
{
    let text = chars_of(branches);
    let ls = split_lines(text.as_slice());
    let mut list: Vec<StackSeed> = Vec::new();
    for i in 0..ls.len()
        invariant
            pieces(ls@) == lines(branches@),
            views(list@) == seeds(pieces(ls@).take(i as int), document_of(*config)),
    {
        proof {
            let upto = pieces(ls@).take(i + 1);
            assert(upto.drop_last() == pieces(ls@).take(i as int));
            assert(upto.last() == ls@[i as int]@);
        }
        let ghost before = views(list@);
        let branch = string_of(ls[i]);
        match crate::stack::extract_stack_name(branch.as_str()) {
            Some(name) => {
                let chars = chars_of(name.as_str());
                if !named(&list, chars.as_slice()) {
                    let base = get_stack_base(config, name.as_str());
                    let username = match crate::stack::extract_username_from_branch(
                        branch.as_str(),
                    ) {
                        Some(user) => user,
                        None => String::new(),
                    };
                    let seed = StackSeed { name, branch, base, username };
                    list.push(seed);
                    assert(views(list@) == before.push(seed@));
                }
            },
            None => {},
        }
    }
    assert(pieces(ls@).take(ls.len() as int) == pieces(ls@));
    list
}

/// The number of commits that a run of `git rev-list --count` gives: the
/// number it printed, and 0 where it printed none or failed.
pub open spec fn commit_count(outcome: OutcomeView) -> usize {
    match outcome {
        OutcomeView::Exited { success, stdout, stderr } => if success {
            match unsigned_within(trimmed(stdout), usize::MAX as u64) {
                Some(n) => n as usize,
                None => 0,
            }
        } else {
            0
        },
        OutcomeView::NotStarted { reason } => 0,
    }
}

fn count_of(outcome: &Outcome) -> (n: usize)
    ensures
        n == commit_count(outcome@),
{
    match outcome {
        Outcome::Exited { success, stdout, stderr } => if *success {
            let text = chars_of(stdout.as_str());
            match parse_unsigned(trim(text.as_slice()), usize::MAX as u64) {
                Some(n) => n as usize,
                None => 0,
            }
        } else {
            0
        },
        Outcome::NotStarted { reason } => 0,
    }
}

/// The stack that `seed` becomes once `count` commits are counted.
pub open spec fn grown(seed: SeedRecord, current: Option<Seq<char>>, count: usize) -> StackRecord {
    StackRecord {
        name: seed.name,
        base: seed.base,
        commit_count: count,
        is_current: current == Some(seed.branch),
        username: seed.username,
    }
}

/// The arguments that list the local branches.
pub open spec fn branches_args() -> Seq<Seq<char>> {
    seq!["for-each-ref"@, "--format=%(refname:short)"@, "refs/heads/"@]
}

/// The arguments that list the local branches.
pub fn branches_command() -> (args: Vec<String>)
    ensures
        views(args@) == branches_args(),
{
    let args: Vec<String> = vec![
        "for-each-ref".to_owned(),
        "--format=%(refname:short)".to_owned(),
        "refs/heads/".to_owned(),
    ];
    assert(views(args@) == branches_args());
    args
}

/// The query for the stacks of a repository, under way.
#[derive(Debug, PartialEq, Eq)]
pub enum StackList {
    /// What `.git` is is asked.
    Locating,
    /// Whether the state directory holds `config.json` is asked.
    Checking { dir: StateDir },
    /// The text of `config.json` is asked.
    Loading { dir: StateDir },
    /// The text of `current_stack` is asked.
    Current { dir: StateDir, config: serde_json::Value },
    /// The local branches are asked.
    Branches { config: serde_json::Value, current: Option<String> },
    /// The commits of `seed` are being counted. `sorted` holds the stacks
    /// before it, by name; `later` holds those after it.
    Counting {
        current: Option<String>,
        sorted: Vec<GgStackInfo>,
        seed: StackSeed,
        later: Vec<StackSeed>,
    },
    /// The answer.
    Done { result: Result<Vec<GgStackInfo>, String> },
}

/// What a `StackList` holds.
pub enum StackListView {
    Locating,
    Checking { dir: StateDirView },
    Loading { dir: StateDirView },
    Current { dir: StateDirView, config: Document },
    Branches { config: Document, current: Option<Seq<char>> },
    Counting {
        current: Option<Seq<char>>,
        sorted: Seq<StackRecord>,
        seed: SeedRecord,
        later: Seq<SeedRecord>,
    },
    Done { result: Result<Seq<StackRecord>, Seq<char>> },
}

/// What the answer of a stack listing holds.
pub open spec fn stacks_result_view(r: Result<Vec<GgStackInfo>, String>) -> Result<
    Seq<StackRecord>,
    Seq<char>,
> {
    match r {
        Ok(stacks) => Ok(views(stacks@)),
        Err(m) => Err(m@),
    }
}

impl View for StackList {
    type V = StackListView;

    open spec fn view(&self) -> StackListView {
        match self {
            StackList::Locating => StackListView::Locating,
            StackList::Checking { dir } => StackListView::Checking { dir: dir@ },
            StackList::Loading { dir } => StackListView::Loading { dir: dir@ },
            StackList::Current { dir, config } => StackListView::Current {
                dir: dir@,
                config: document_of(*config),
            },
            StackList::Branches { config, current } => StackListView::Branches {
                config: document_of(*config),
                current: text_of(*current),
            },
            StackList::Counting { current, sorted, seed, later } => StackListView::Counting {
                current: text_of(*current),
                sorted: views(sorted@),
                seed: seed@,
                later: views(later@),
            },
            StackList::Done { result } => StackListView::Done { result: stacks_result_view(*result) },
        }
    }
}

impl StackListView {
    /// What the query asks for next; nothing once it holds its answer.
    pub open spec fn pending(self) -> Option<RequestView> {
        match self {
            StackListView::Locating => Some(RequestView::InspectDotGit),
            StackListView::Checking { dir } => Some(
                RequestView::StateFileExists { dir, name: "config.json"@ },
            ),
            StackListView::Loading { dir } => Some(
                RequestView::ReadStateFile { dir, name: "config.json"@ },
            ),
            StackListView::Current { dir, config } => Some(
                RequestView::ReadStateFile { dir, name: "current_stack"@ },
            ),
            StackListView::Branches { config, current } => Some(
                RequestView::Git { args: branches_args() },
            ),
            StackListView::Counting { current, sorted, seed, later } => Some(
                RequestView::Git {
                    args: seq!["rev-list"@, "--count"@, stack_range(seed.base, seed.branch)],
                },
            ),
            StackListView::Done { result } => None,
        }
    }

    /// The query after `reply`. Where the stack state has no place, or its
    /// place holds no `config.json`, there are no stacks and the answer is the
    /// empty list. A reply that does not answer what the query asked for
    /// leaves it as it is.
    pub open spec fn advance(self, reply: ReplyView) -> StackListView {
        match (self, reply) {
            (StackListView::Locating, ReplyView::DotGit { found }) => match state_dir(found) {
                Some(dir) => StackListView::Checking { dir },
                None => StackListView::Done { result: Ok(Seq::empty()) },
            },
            (StackListView::Checking { dir }, ReplyView::Exists { present }) => if present {
                StackListView::Loading { dir }
            } else {
                StackListView::Done { result: Ok(Seq::empty()) }
            },
            (StackListView::Loading { dir }, ReplyView::Text { content }) => match loaded(content) {
                Ok(config) => StackListView::Current { dir, config },
                Err(message) => StackListView::Done { result: Err(message) },
            },
            (StackListView::Current { dir, config }, ReplyView::Text { content }) => {
                StackListView::Branches { config, current: current_stack(content) }
            },
            (StackListView::Branches { config, current }, ReplyView::Git { outcome }) => {
                match outcome.checked("Failed to list branches"@) {
                    Ok(text) => {
                        let found = seeds(lines(text), config);
                        if found.len() == 0 {
                            StackListView::Done { result: Ok(Seq::empty()) }
                        } else {
                            StackListView::Counting {
                                current,
                                sorted: Seq::empty(),
                                seed: found[0],
                                later: found.skip(1),
                            }
                        }
                    },
                    Err(message) => StackListView::Done { result: Err(message) },
                }
            },
            (
                StackListView::Counting { current, sorted, seed, later },
                ReplyView::Git { outcome },
            ) => {
                match outcome {
                    OutcomeView::NotStarted { reason } => StackListView::Done {
                        result: Err(not_started("Failed to count commits"@, reason)),
                    },
                    _ => {
                        let more = placed_by_name(
                            sorted,
                            grown(seed, current, commit_count(outcome)),
                        );
                        if later.len() > 0 {
                            StackListView::Counting {
                                current,
                                sorted: more,
                                seed: later[0],
                                later: later.skip(1),
                            }
                        } else {
                            StackListView::Done { result: Ok(more) }
                        }
                    },
                }
            },
            _ => self,
        }
    }

    /// Whether the stacks seen so far are sorted.
    pub open spec fn in_order(self) -> bool {
        match self {
            StackListView::Counting { current, sorted, seed, later } => sorted_by_name(sorted),
            StackListView::Done { result } => match result {
                Ok(stacks) => sorted_by_name(stacks),
                Err(_) => true,
            },
            _ => true,
        }
    }
}

/// A query keeps its stacks sorted, so that its answer is sorted by name.
pub proof fn lemma_stacks_stay_in_order(q: StackListView, reply: ReplyView)
    requires
        q.in_order(),
    ensures
        q.advance(reply).in_order(),
{
    match (q, reply) {
        (StackListView::Counting { current, sorted, seed, later }, ReplyView::Git { outcome }) => {
            crate::stack::lemma_placed_by_name(
                sorted,
                grown(seed, current, commit_count(outcome)),
            );
        },
        _ => {},
    }
}

/// The query for the stacks of a repository. Its answer holds them sorted by
/// name, and is empty where the repository has no stack configuration.
pub fn list_gg_stacks() -> (q: StackList)
    ensures
        q@ == StackListView::Locating,
{
    StackList::Locating
}

fn no_stacks() -> (none: Vec<GgStackInfo>)
    ensures
        views(none@) == Seq::<StackRecord>::empty(),
{
    let none: Vec<GgStackInfo> = Vec::new();
    assert(views(none@) == Seq::<StackRecord>::empty());
    none
}

fn no_entries() -> (none: Vec<GgStackEntry>)
    ensures
        views(none@) == Seq::<EntryRecord>::empty(),
{
    let none: Vec<GgStackEntry> = Vec::new();
    assert(views(none@) == Seq::<EntryRecord>::empty());
    none
}

fn same_branch(current: &Option<String>, branch: &String) -> (b: bool)
    ensures
        b == (text_of(*current) == Some(branch@)),
{
    match current {
        Some(c) => *c == *branch,
        None => false,
    }
}

impl StackList {
    /// What the query asks for next; nothing once it holds its answer.
    pub fn pending(&self) -> (r: Option<Request>)
        ensures
            match r {
                Some(request) => self@.pending() == Some(request@),
                None => self@.pending() is None,
            },
    {
        match self {
            StackList::Locating => Some(Request::InspectDotGit),
            StackList::Checking { dir } => Some(
                Request::StateFileExists { dir: copy_dir(dir), name: "config.json".to_owned() },
            ),
            StackList::Loading { dir } => Some(
                Request::ReadStateFile { dir: copy_dir(dir), name: "config.json".to_owned() },
            ),
            StackList::Current { dir, config } => Some(
                Request::ReadStateFile { dir: copy_dir(dir), name: "current_stack".to_owned() },
            ),
            StackList::Branches { config, current } => Some(
                Request::Git { args: branches_command() },
            ),
            StackList::Counting { current, sorted, seed, later } => {
                let args: Vec<String> = vec![
                    "rev-list".to_owned(),
                    "--count".to_owned(),
                    stack_range_of(seed.base.as_str(), seed.branch.as_str()),
                ];
                assert(views(args@) == seq![
                    "rev-list"@,
                    "--count"@,
                    stack_range(seed.base@, seed.branch@),
                ]);
                Some(Request::Git { args })
            },
            StackList::Done { result } => None,
        }
    }

    /// The query after `reply`.
    pub fn advance(self, reply: Reply) -> (next: StackList)
        ensures
            next@ == self@.advance(reply@),
    {
        match self {
            StackList::Locating => match reply {
                Reply::DotGit { found } => match resolve_gg_dir(&found) {
                    Some(dir) => StackList::Checking { dir },
                    None => StackList::Done { result: Ok(no_stacks()) },
                },
                _ => StackList::Locating,
            },
            StackList::Checking { dir } => match reply {
                Reply::Exists { present } => if present {
                    StackList::Loading { dir }
                } else {
                    StackList::Done { result: Ok(no_stacks()) }
                },
                _ => StackList::Checking { dir },
            },
            StackList::Loading { dir } => match reply {
                Reply::Text { content } => match read_gg_config(content) {
                    Ok(config) => StackList::Current { dir, config },
                    Err(message) => StackList::Done { result: Err(message) },
                },
                _ => StackList::Loading { dir },
            },
            StackList::Current { dir, config } => match reply {
                Reply::Text { content } => StackList::Branches {
                    config,
                    current: get_current_stack(content),
                },
                _ => StackList::Current { dir, config },
            },
            StackList::Branches { config, current } => match reply {
                Reply::Git { outcome } => {
                    match outcome.check("Failed to list branches") {
                        Ok(text) => {
                            let mut found = stack_seeds(text.as_str(), &config);
                            if found.len() == 0 {
                                let none: Vec<GgStackInfo> = Vec::new();
                                assert(views(none@) == Seq::<StackRecord>::empty());
                                StackList::Done { result: Ok(none) }
                            } else {
                                let ghost all = views(found@);
                                let seed = found.remove(0);
                                assert(views(found@) == all.skip(1));
                                assert(seed@ == all[0]);
                                let sorted: Vec<GgStackInfo> = Vec::new();
                                assert(views(sorted@) == Seq::<StackRecord>::empty());
                                StackList::Counting { current, sorted, seed, later: found }
                            }
                        },
                        Err(message) => StackList::Done { result: Err(message) },
                    }
                },
                _ => StackList::Branches { config, current },
            },
            StackList::Counting { current, sorted, seed, later } => match reply {
                Reply::Git { outcome } => {
                    let count = count_of(&outcome);
                    match outcome {
                        Outcome::NotStarted { reason } => {
                            let mut m = "Failed to count commits".to_owned();
                            m.append(": ");
                            m.append(reason.as_str());
                            StackList::Done { result: Err(m) }
                        },
                        _ => {
                            let mut sorted = sorted;
                            let mut later = later;
                            let is_current = same_branch(&current, &seed.branch);
                            let stack = GgStackInfo {
                                name: seed.name,
                                base: seed.base,
                                commit_count: count,
                                is_current,
                                username: seed.username,
                            };
                            place_by_name(&mut sorted, stack);
                            if later.len() > 0 {
                                let ghost all = views(later@);
                                let following = later.remove(0);
                                assert(views(later@) == all.skip(1));
                                assert(following@ == all[0]);
                                StackList::Counting { current, sorted, seed: following, later }
                            } else {
                                StackList::Done { result: Ok(sorted) }
                            }
                        },
                    }
                },
                _ => StackList::Counting { current, sorted, seed, later },
            },
            StackList::Done { result } => StackList::Done { result },
        }
    }

    /// The answer, once the query holds it.
    pub fn finish(self) -> (r: Option<Result<Vec<GgStackInfo>, String>>)
        ensures
            match r {
                Some(result) => self@ == (StackListView::Done { result: stacks_result_view(result) }),
                None => !(self@ is Done),
            },
    {
        match self {
            StackList::Done { result } => Some(result),
            _ => None,
        }
    }
}

/// The revisions of the stack `stack`, going by a run of git that lists the
/// branches: from the stack's base to the first branch that carries it. Only
/// a run that could not be started is an error of the run; no such branch is
/// one of the stack.
pub open spec fn revisions(config: Document, stack: Seq<char>, outcome: OutcomeView) -> Result<
    Seq<char>,
    Seq<char>,
> {
    match outcome.output("Failed to list branches"@) {
        Ok(text) => match stack_branch(text, stack) {
            Some(branch) => Ok(stack_range(stack_base(config, stack), branch)),
            None => Err("Stack branch not found for: "@ + stack),
        },
        Err(message) => Err(message),
    }
}

fn revisions_of(config: &serde_json::Value, stack: &str, outcome: Outcome) -> (r: Result<
    String,
    String,
>)
    ensures
        result_text(r) == revisions(document_of(*config), stack@, outcome@),
{
    match outcome.output("Failed to list branches") {
        Ok(text) => match find_stack_branch(text.as_str(), stack) {
            Some(branch) => {
                let base = get_stack_base(config, stack);
                Ok(stack_range_of(base.as_str(), branch.as_str()))
            },
            None => {
                let mut m = "Stack branch not found for: ".to_owned();
                m.append(stack);
                Err(m)
            },
        },
        Err(message) => Err(message),
    }
}

/// The query for the commits of a stack, under way.
#[derive(Debug, PartialEq, Eq)]
pub enum StackEntries {
    /// What `.git` is is asked.
    Locating { stack: String },
    /// Whether the state directory holds `config.json` is asked.
    Checking { stack: String, dir: StateDir },
    /// The text of `config.json` is asked.
    Loading { stack: String, dir: StateDir },
    /// The local branches are asked.
    Branches { stack: String, config: serde_json::Value },
    /// The log of the revisions `range` is asked.
    Log { stack: String, config: serde_json::Value, range: String },
    /// The answer.
    Done { result: Result<Vec<GgStackEntry>, String> },
}

/// What a `StackEntries` holds.
pub enum StackEntriesView {
    Locating { stack: Seq<char> },
    Checking { stack: Seq<char>, dir: StateDirView },
    Loading { stack: Seq<char>, dir: StateDirView },
    Branches { stack: Seq<char>, config: Document },
    Log { stack: Seq<char>, config: Document, range: Seq<char> },
    Done { result: Result<Seq<EntryRecord>, Seq<char>> },
}

/// What the answer of a query for the commits of a stack holds.
pub open spec fn entries_result_view(r: Result<Vec<GgStackEntry>, String>) -> Result<
    Seq<EntryRecord>,
    Seq<char>,
> {
    match r {
        Ok(entries) => Ok(views(entries@)),
        Err(m) => Err(m@),
    }
}

impl View for StackEntries {
    type V = StackEntriesView;

    open spec fn view(&self) -> StackEntriesView {
        match self {
            StackEntries::Locating { stack } => StackEntriesView::Locating { stack: stack@ },
            StackEntries::Checking { stack, dir } => StackEntriesView::Checking {
                stack: stack@,
                dir: dir@,
            },
            StackEntries::Loading { stack, dir } => StackEntriesView::Loading {
                stack: stack@,
                dir: dir@,
            },
            StackEntries::Branches { stack, config } => StackEntriesView::Branches {
                stack: stack@,
                config: document_of(*config),
            },
            StackEntries::Log { stack, config, range } => StackEntriesView::Log {
                stack: stack@,
                config: document_of(*config),
                range: range@,
            },
            StackEntries::Done { result } => StackEntriesView::Done {
                result: entries_result_view(*result),
            },
        }
    }
}

impl StackEntriesView {
    /// What the query asks for next; nothing once it holds its answer.
    pub open spec fn pending(self) -> Option<RequestView> {
        match self {
            StackEntriesView::Locating { stack } => Some(RequestView::InspectDotGit),
            StackEntriesView::Checking { stack, dir } => Some(
                RequestView::StateFileExists { dir, name: "config.json"@ },
            ),
            StackEntriesView::Loading { stack, dir } => Some(
                RequestView::ReadStateFile { dir, name: "config.json"@ },
            ),
            StackEntriesView::Branches { stack, config } => Some(
                RequestView::Git { args: branches_args() },
            ),
            StackEntriesView::Log { stack, config, range } => Some(
                RequestView::Git { args: stack_log_args(range) },
            ),
            StackEntriesView::Done { result } => None,
        }
    }

    /// The query after `reply`. Where the stack state has no place, or its
    /// place holds no `config.json`, there are no stacks and the answer is the
    /// empty list. A reply that does not answer what the query asked for
    /// leaves it as it is.
    pub open spec fn advance(self, reply: ReplyView) -> StackEntriesView {
        match (self, reply) {
            (StackEntriesView::Locating { stack }, ReplyView::DotGit { found }) => {
                match state_dir(found) {
                    Some(dir) => StackEntriesView::Checking { stack, dir },
                    None => StackEntriesView::Done { result: Ok(Seq::empty()) },
                }
            },
            (StackEntriesView::Checking { stack, dir }, ReplyView::Exists { present }) => {
                if present {
                    StackEntriesView::Loading { stack, dir }
                } else {
                    StackEntriesView::Done { result: Ok(Seq::empty()) }
                }
            },
            (StackEntriesView::Loading { stack, dir }, ReplyView::Text { content }) => {
                match loaded(content) {
                    Ok(config) => StackEntriesView::Branches { stack, config },
                    Err(message) => StackEntriesView::Done { result: Err(message) },
                }
            },
            (StackEntriesView::Branches { stack, config }, ReplyView::Git { outcome }) => {
                match revisions(config, stack, outcome) {
                    Ok(range) => StackEntriesView::Log { stack, config, range },
                    Err(message) => StackEntriesView::Done { result: Err(message) },
                }
            },
            (StackEntriesView::Log { stack, config, range }, ReplyView::Git { outcome }) => {
                match outcome.checked("Failed to get stack commits"@) {
                    Ok(text) => StackEntriesView::Done {
                        result: Ok(stack_entries(text, config, stack)),
                    },
                    Err(message) => StackEntriesView::Done { result: Err(message) },
                }
            },
            _ => self,
        }
    }
}

/// The arguments that print the log of the revisions `range`, oldest commit
/// first. For each commit they print the header `hash|short hash|title` on a
/// line of its own, then the body, then the end mark.
pub open spec fn stack_log_args(range: Seq<char>) -> Seq<Seq<char>> {
    seq!["log"@, "--reverse"@, "--format=%H|%h|%s%n%b%x00"@, range]
}

/// The arguments that print the log of the revisions `range`.
pub fn stack_log_command(range: &str) -> (args: Vec<String>)
    ensures
        views(args@) == stack_log_args(range@),
{
    let args: Vec<String> = vec![
        "log".to_owned(),
        "--reverse".to_owned(),
        "--format=%H|%h|%s%n%b%x00".to_owned(),
        range.to_owned(),
    ];
    assert(views(args@) == stack_log_args(range@));
    args
}

/// The query for the commits of the stack `stack_name`, from the oldest to the
/// newest. Its answer is empty where the repository has no stack
/// configuration.
pub fn get_gg_stack_entries(stack_name: &str) -> (q: StackEntries)
    ensures
        q@ == (StackEntriesView::Locating { stack: stack_name@ }),
{
    StackEntries::Locating { stack: stack_name.to_owned() }
}

impl StackEntries {
    /// What the query asks for next; nothing once it holds its answer.
    pub fn pending(&self) -> (r: Option<Request>)
        ensures
            match r {
                Some(request) => self@.pending() == Some(request@),
                None => self@.pending() is None,
            },
    {
        match self {
            StackEntries::Locating { stack } => Some(Request::InspectDotGit),
            StackEntries::Checking { stack, dir } => Some(
                Request::StateFileExists { dir: copy_dir(dir), name: "config.json".to_owned() },
            ),
            StackEntries::Loading { stack, dir } => Some(
                Request::ReadStateFile { dir: copy_dir(dir), name: "config.json".to_owned() },
            ),
            StackEntries::Branches { stack, config } => Some(
                Request::Git { args: branches_command() },
            ),
            StackEntries::Log { stack, config, range } => Some(
                Request::Git { args: stack_log_command(range.as_str()) },
            ),
            StackEntries::Done { result } => None,
        }
    }

    /// The query after `reply`.
    pub fn advance(self, reply: Reply) -> (next: StackEntries)
        ensures
            next@ == self@.advance(reply@),
    {
        match self {
            StackEntries::Locating { stack } => match reply {
                Reply::DotGit { found } => match resolve_gg_dir(&found) {
                    Some(dir) => StackEntries::Checking { stack, dir },
                    None => StackEntries::Done { result: Ok(no_entries()) },
                },
                _ => StackEntries::Locating { stack },
            },
            StackEntries::Checking { stack, dir } => match reply {
                Reply::Exists { present } => if present {
                    StackEntries::Loading { stack, dir }
                } else {
                    StackEntries::Done { result: Ok(no_entries()) }
                },
                _ => StackEntries::Checking { stack, dir },
            },
            StackEntries::Loading { stack, dir } => match reply {
                Reply::Text { content } => match read_gg_config(content) {
                    Ok(config) => StackEntries::Branches { stack, config },
                    Err(message) => StackEntries::Done { result: Err(message) },
                },
                _ => StackEntries::Loading { stack, dir },
            },
            StackEntries::Branches { stack, config } => match reply {
                Reply::Git { outcome } => match revisions_of(&config, stack.as_str(), outcome) {
                    Ok(range) => StackEntries::Log { stack, config, range },
                    Err(message) => StackEntries::Done { result: Err(message) },
                },
                _ => StackEntries::Branches { stack, config },
            },
            StackEntries::Log { stack, config, range } => match reply {
                Reply::Git { outcome } => match outcome.check("Failed to get stack commits") {
                    Ok(text) => StackEntries::Done {
                        result: Ok(parse_stack_entries(text.as_str(), &config, stack.as_str())),
                    },
                    Err(message) => StackEntries::Done { result: Err(message) },
                },
                _ => StackEntries::Log { stack, config, range },
            },
            StackEntries::Done { result } => StackEntries::Done { result },
        }
    }

    /// The answer, once the query holds it.
    pub fn finish(self) -> (r: Option<Result<Vec<GgStackEntry>, String>>)
        ensures
            match r {
                Some(result) => self@ == (StackEntriesView::Done {
                    result: entries_result_view(result),
                }),
                None => !(self@ is Done),
            },
    {
        match self {
            StackEntries::Done { result } => Some(result),
            _ => None,
        }
    }
}

/// The query for the diff of a whole stack, under way.
#[derive(Debug, PartialEq, Eq)]
pub enum StackDiff {
    /// What `.git` is is asked.
    Locating { stack: String },
    /// Whether the state directory holds `config.json` is asked.
    Checking { stack: String, dir: StateDir },
    /// The text of `config.json` is asked.
    Loading { stack: String, dir: StateDir },
    /// The local branches are asked.
    Branches { stack: String, config: serde_json::Value },
    /// The diff of the revisions `range` is asked.
    Diffing { range: String },
    /// The answer.
    Done { result: Result<String, String> },
}

/// What a `StackDiff` holds.
pub enum StackDiffView {
    Locating { stack: Seq<char> },
    Checking { stack: Seq<char>, dir: StateDirView },
    Loading { stack: Seq<char>, dir: StateDirView },
    Branches { stack: Seq<char>, config: Document },
    Diffing { range: Seq<char> },
    Done { result: Result<Seq<char>, Seq<char>> },
}

impl View for StackDiff {
    type V = StackDiffView;

    open spec fn view(&self) -> StackDiffView {
        match self {
            StackDiff::Locating { stack } => StackDiffView::Locating { stack: stack@ },
            StackDiff::Checking { stack, dir } => StackDiffView::Checking {
                stack: stack@,
                dir: dir@,
            },
            StackDiff::Loading { stack, dir } => StackDiffView::Loading { stack: stack@, dir: dir@ },
            StackDiff::Branches { stack, config } => StackDiffView::Branches {
                stack: stack@,
                config: document_of(*config),
            },
            StackDiff::Diffing { range } => StackDiffView::Diffing { range: range@ },
            StackDiff::Done { result } => StackDiffView::Done { result: result_text(*result) },
        }
    }
}

impl StackDiffView {
    /// What the query asks for next; nothing once it holds its answer.
    pub open spec fn pending(self) -> Option<RequestView> {
        match self {
            StackDiffView::Locating { stack } => Some(RequestView::InspectDotGit),
            StackDiffView::Checking { stack, dir } => Some(
                RequestView::StateFileExists { dir, name: "config.json"@ },
            ),
            StackDiffView::Loading { stack, dir } => Some(
                RequestView::ReadStateFile { dir, name: "config.json"@ },
            ),
            StackDiffView::Branches { stack, config } => Some(
                RequestView::Git { args: branches_args() },
            ),
            StackDiffView::Diffing { range } => Some(
                RequestView::Git { args: seq!["diff"@, "--no-color"@, range] },
            ),
            StackDiffView::Done { result } => None,
        }
    }

    /// The query after `reply`. Where the stack state has no place, or its
    /// place holds no `config.json`, there are no stacks, and the answer is
    /// the empty diff: a stack that is not there has changed nothing. A reply
    /// that does not answer what the query asked for leaves it as it is.
    pub open spec fn advance(self, reply: ReplyView) -> StackDiffView {
        match (self, reply) {
            (StackDiffView::Locating { stack }, ReplyView::DotGit { found }) => {
                match state_dir(found) {
                    Some(dir) => StackDiffView::Checking { stack, dir },
                    None => StackDiffView::Done { result: Ok(Seq::empty()) },
                }
            },
            (StackDiffView::Checking { stack, dir }, ReplyView::Exists { present }) => {
                if present {
                    StackDiffView::Loading { stack, dir }
                } else {
                    StackDiffView::Done { result: Ok(Seq::empty()) }
                }
            },
            (StackDiffView::Loading { stack, dir }, ReplyView::Text { content }) => {
                match loaded(content) {
                    Ok(config) => StackDiffView::Branches { stack, config },
                    Err(message) => StackDiffView::Done { result: Err(message) },
                }
            },
            (StackDiffView::Branches { stack, config }, ReplyView::Git { outcome }) => {
                match revisions(config, stack, outcome) {
                    Ok(range) => StackDiffView::Diffing { range },
                    Err(message) => StackDiffView::Done { result: Err(message) },
                }
            },
            (StackDiffView::Diffing { range }, ReplyView::Git { outcome }) => {
                StackDiffView::Done { result: outcome.checked("Failed to get stack diff"@) }
            },
            _ => self,
        }
    }
}

/// The query for the diff of the stack `stack_name`, from its base to its
/// branch. Its answer is the empty diff where the repository has no stack
/// configuration.
pub fn get_gg_stack_diff(stack_name: &str) -> (q: StackDiff)
    ensures
        q@ == (StackDiffView::Locating { stack: stack_name@ }),
{
    StackDiff::Locating { stack: stack_name.to_owned() }
}

impl StackDiff {
    /// What the query asks for next; nothing once it holds its answer.
    pub fn pending(&self) -> (r: Option<Request>)
        ensures
            match r {
                Some(request) => self@.pending() == Some(request@),
                None => self@.pending() is None,
            },
    {
        match self {
            StackDiff::Locating { stack } => Some(Request::InspectDotGit),
            StackDiff::Checking { stack, dir } => Some(
                Request::StateFileExists { dir: copy_dir(dir), name: "config.json".to_owned() },
            ),
            StackDiff::Loading { stack, dir } => Some(
                Request::ReadStateFile { dir: copy_dir(dir), name: "config.json".to_owned() },
            ),
            StackDiff::Branches { stack, config } => Some(
                Request::Git { args: branches_command() },
            ),
            StackDiff::Diffing { range } => {
                let args: Vec<String> = vec![
                    "diff".to_owned(),
                    "--no-color".to_owned(),
                    range.clone(),
                ];
                assert(views(args@) == seq!["diff"@, "--no-color"@, range@]);
                Some(Request::Git { args })
            },
            StackDiff::Done { result } => None,
        }
    }

    /// The query after `reply`.
    pub fn advance(self, reply: Reply) -> (next: StackDiff)
        ensures
            next@ == self@.advance(reply@),
    {
        match self {
            StackDiff::Locating { stack } => match reply {
                Reply::DotGit { found } => match resolve_gg_dir(&found) {
                    Some(dir) => StackDiff::Checking { stack, dir },
                    None => StackDiff::Done { result: Ok(String::new()) },
                },
                _ => StackDiff::Locating { stack },
            },
            StackDiff::Checking { stack, dir } => match reply {
                Reply::Exists { present } => if present {
                    StackDiff::Loading { stack, dir }
                } else {
                    StackDiff::Done { result: Ok(String::new()) }
                },
                _ => StackDiff::Checking { stack, dir },
            },
            StackDiff::Loading { stack, dir } => match reply {
                Reply::Text { content } => match read_gg_config(content) {
                    Ok(config) => StackDiff::Branches { stack, config },
                    Err(message) => StackDiff::Done { result: Err(message) },
                },
                _ => StackDiff::Loading { stack, dir },
            },
            StackDiff::Branches { stack, config } => match reply {
                Reply::Git { outcome } => match revisions_of(&config, stack.as_str(), outcome) {
                    Ok(range) => StackDiff::Diffing { range },
                    Err(message) => StackDiff::Done { result: Err(message) },
                },
                _ => StackDiff::Branches { stack, config },
            },
            StackDiff::Diffing { range } => match reply {
                Reply::Git { outcome } => StackDiff::Done {
                    result: outcome.check("Failed to get stack diff"),
                },
                _ => StackDiff::Diffing { range },
            },
            StackDiff::Done { result } => StackDiff::Done { result },
        }
    }

    /// The answer, once the query holds it.
    pub fn finish(self) -> (r: Option<Result<String, String>>)
        ensures
            match r {
                Some(result) => self@ == (StackDiffView::Done { result: result_text(result) }),
                None => !(self@ is Done),
            },
    {
        match self {
            StackDiff::Done { result } => Some(result),
            _ => None,
        }
    }
}

impl StackListView {
    /// The query after the replies `replies`, one after the other.
    pub open spec fn run(self, replies: Seq<ReplyView>) -> StackListView
        decreases replies.len(),
    {
        if replies.len() == 0 {
            self
        } else {
            self.advance(replies[0]).run(replies.drop_first())
        }
    }
}

/// The stacks `found`, each with the commits that its run of `counts` gives
/// it, sorted by name. A run that could not be started is an error; of
/// several, the first.
pub open spec fn counted(
    found: Seq<SeedRecord>,
    current: Option<Seq<char>>,
    counts: Seq<OutcomeView>,
) -> Result<Seq<StackRecord>, Seq<char>>
    decreases found.len(),
{
    if found.len() == 0 || counts.len() == 0 {
        Ok(Seq::empty())
    } else {
        match counted(found.drop_last(), current, counts.drop_last()) {
            Ok(sorted) => match counts.last() {
                OutcomeView::NotStarted { reason } => Err(
                    not_started("Failed to count commits"@, reason),
                ),
                _ => Ok(
                    placed_by_name(sorted, grown(found.last(), current, commit_count(counts.last()))),
                ),
            },
            Err(message) => Err(message),
        }
    }
}

/// The stacks come out sorted by name.
pub proof fn lemma_counted_is_sorted(
    found: Seq<SeedRecord>,
    current: Option<Seq<char>>,
    counts: Seq<OutcomeView>,
)
    ensures
        counted(found, current, counts) matches Ok(stacks) ==> sorted_by_name(stacks),
    decreases found.len(),
{
    if found.len() == 0 || counts.len() == 0 {
    } else {
        lemma_counted_is_sorted(found.drop_last(), current, counts.drop_last());
        match counted(found.drop_last(), current, counts.drop_last()) {
            Ok(sorted) => {
                crate::stack::lemma_placed_by_name(
                    sorted,
                    grown(found.last(), current, commit_count(counts.last())),
                );
            },
            Err(message) => {},
        }
    }
}

/// An error among the first stacks is the error of them all.
proof fn lemma_counted_error(
    found: Seq<SeedRecord>,
    current: Option<Seq<char>>,
    counts: Seq<OutcomeView>,
    i: int,
)
    requires
        0 <= i <= found.len(),
        found.len() == counts.len(),
        counted(found.take(i), current, counts.take(i)) is Err,
    ensures
        counted(found, current, counts) == counted(found.take(i), current, counts.take(i)),
    decreases found.len() - i,
{
    if i == found.len() {
        assert(found.take(i) == found);
        assert(counts.take(i) == counts);
    } else {
        assert(found.take(i + 1).drop_last() == found.take(i));
        assert(counts.take(i + 1).drop_last() == counts.take(i));
        lemma_counted_error(found, current, counts, i + 1);
    }
}

/// A listing that holds its answer keeps it.
pub proof fn lemma_stack_list_done_stays(
    result: Result<Seq<StackRecord>, Seq<char>>,
    replies: Seq<ReplyView>,
)
    ensures
        (StackListView::Done { result }).run(replies) == (StackListView::Done { result }),
    decreases replies.len(),
{
    if replies.len() > 0 {
        lemma_stack_list_done_stays(result, replies.drop_first());
    }
}

proof fn lemma_counting(
    found: Seq<SeedRecord>,
    current: Option<Seq<char>>,
    counts: Seq<OutcomeView>,
    i: int,
)
    requires
        0 <= i < found.len(),
        found.len() == counts.len(),
        counted(found.take(i), current, counts.take(i)) is Ok,
    ensures
        (StackListView::Counting {
            current,
            sorted: counted(found.take(i), current, counts.take(i))->Ok_0,
            seed: found[i],
            later: found.skip(i + 1),
        }).run(crate::git::git_replies(counts.skip(i))) == (StackListView::Done {
            result: counted(found, current, counts),
        }),
    decreases found.len() - i,
{
    let state = StackListView::Counting {
        current,
        sorted: counted(found.take(i), current, counts.take(i))->Ok_0,
        seed: found[i],
        later: found.skip(i + 1),
    };
    let replies = crate::git::git_replies(counts.skip(i));
    let later_replies = crate::git::git_replies(counts.skip(i + 1));
    assert(replies[0] == ReplyView::Git { outcome: counts[i] });
    assert(replies.drop_first() == later_replies);
    assert(state.run(replies) == state.advance(replies[0]).run(later_replies));
    assert(found.take(i + 1).drop_last() == found.take(i));
    assert(counts.take(i + 1).drop_last() == counts.take(i));
    assert(found.take(i + 1).last() == found[i]);
    assert(counts.take(i + 1).last() == counts[i]);
    match counts[i] {
        OutcomeView::NotStarted { reason } => {
            lemma_counted_error(found, current, counts, i + 1);
            lemma_stack_list_done_stays(
                Err(not_started("Failed to count commits"@, reason)),
                later_replies,
            );
        },
        _ => {
            if i + 1 < found.len() {
                assert(found.skip(i + 1)[0] == found[i + 1]);
                assert(found.skip(i + 1).skip(1) == found.skip(i + 2));
                lemma_counting(found, current, counts, i + 1);
            } else {
                assert(found.take(i + 1) == found);
                assert(counts.take(i + 1) == counts);
                assert(later_replies.len() == 0);
            }
        },
    }
}

/// Once configuration and current stack are here, a listing asks for the
/// branches, counts the commits of each stack among them, and then holds the
/// stacks sorted by name.
pub proof fn lemma_stack_list_run(
    config: Document,
    current: Option<Seq<char>>,
    listing: OutcomeView,
    counts: Seq<OutcomeView>,
)
    requires
        listing.checked("Failed to list branches"@) is Ok,
        counts.len() == seeds(
            lines(listing.checked("Failed to list branches"@)->Ok_0),
            config,
        ).len(),
    ensures
        (StackListView::Branches { config, current }).run(
            seq![ReplyView::Git { outcome: listing }] + crate::git::git_replies(counts),
        ) == (StackListView::Done {
            result: counted(
                seeds(lines(listing.checked("Failed to list branches"@)->Ok_0), config),
                current,
                counts,
            ),
        }),
{
    let found = seeds(lines(listing.checked("Failed to list branches"@)->Ok_0), config);
    let state = StackListView::Branches { config, current };
    let replies = seq![ReplyView::Git { outcome: listing }] + crate::git::git_replies(counts);
    assert(replies[0] == ReplyView::Git { outcome: listing });
    assert(replies.drop_first() == crate::git::git_replies(counts));
    assert(state.run(replies) == state.advance(replies[0]).run(crate::git::git_replies(counts)));
    if found.len() == 0 {
        assert(crate::git::git_replies(counts).len() == 0);
    } else {
        assert(counts.skip(0) == counts);
        assert(found.take(0) == Seq::<SeedRecord>::empty());
        lemma_counting(found, current, counts, 0);
    }
}

impl StackEntriesView {
    /// The query after the replies `replies`, one after the other.
    pub open spec fn run(self, replies: Seq<ReplyView>) -> StackEntriesView
        decreases replies.len(),
    {
        if replies.len() == 0 {
            self
        } else {
            self.advance(replies[0]).run(replies.drop_first())
        }
    }
}

/// The commits of the stack `stack`, going by what `.git` is, by whether
/// `config.json` is there, by its text, by the branches and by the log.
/// Without a place for the stack state or without the file there are none.
pub open spec fn entries_answer(
    stack: Seq<char>,
    found: DotGitView,
    present: bool,
    content: Result<Seq<char>, Seq<char>>,
    branches: OutcomeView,
    log: OutcomeView,
) -> Result<Seq<EntryRecord>, Seq<char>> {
    match state_dir(found) {
        Some(dir) => if present {
            match loaded(content) {
                Ok(config) => match revisions(config, stack, branches) {
                    Ok(range) => match log.checked("Failed to get stack commits"@) {
                        Ok(text) => Ok(stack_entries(text, config, stack)),
                        Err(message) => Err(message),
                    },
                    Err(message) => Err(message),
                },
                Err(message) => Err(message),
            }
        } else {
            Ok(Seq::empty())
        },
        None => Ok(Seq::empty()),
    }
}

/// A query that holds its answer keeps it.
pub proof fn lemma_entries_done_stays(
    result: Result<Seq<EntryRecord>, Seq<char>>,
    replies: Seq<ReplyView>,
)
    ensures
        (StackEntriesView::Done { result }).run(replies) == (StackEntriesView::Done { result }),
    decreases replies.len(),
{
    if replies.len() > 0 {
        lemma_entries_done_stays(result, replies.drop_first());
    }
}

/// A query for the commits of a stack finds the state directory, asks whether
/// the configuration is there, reads it, lists the branches and reads the log
/// of the stack, and then holds the entries, or the first error. Where there
/// is no configuration it holds no entries, whatever the later replies say.
pub proof fn lemma_stack_entries_run(
    stack: Seq<char>,
    found: DotGitView,
    present: bool,
    content: Result<Seq<char>, Seq<char>>,
    branches: OutcomeView,
    log: OutcomeView,
)
    ensures
        (StackEntriesView::Locating { stack }).run(
            seq![
                ReplyView::DotGit { found },
                ReplyView::Exists { present },
                ReplyView::Text { content },
                ReplyView::Git { outcome: branches },
                ReplyView::Git { outcome: log },
            ],
        ) == (StackEntriesView::Done {
            result: entries_answer(stack, found, present, content, branches, log),
        }),
{
    let r0 = seq![
        ReplyView::DotGit { found },
        ReplyView::Exists { present },
        ReplyView::Text { content },
        ReplyView::Git { outcome: branches },
        ReplyView::Git { outcome: log },
    ];
    let r1 = seq![
        ReplyView::Exists { present },
        ReplyView::Text { content },
        ReplyView::Git { outcome: branches },
        ReplyView::Git { outcome: log },
    ];
    let r2 = seq![
        ReplyView::Text { content },
        ReplyView::Git { outcome: branches },
        ReplyView::Git { outcome: log },
    ];
    let r3 = seq![ReplyView::Git { outcome: branches }, ReplyView::Git { outcome: log }];
    let r4 = seq![ReplyView::Git { outcome: log }];
    assert(r0.drop_first() == r1);
    assert(r1.drop_first() == r2);
    assert(r2.drop_first() == r3);
    assert(r3.drop_first() == r4);
    assert(r4.drop_first() == Seq::<ReplyView>::empty());
    let s0 = StackEntriesView::Locating { stack };
    let s1 = s0.advance(r0[0]);
    let s2 = s1.advance(r1[0]);
    let s3 = s2.advance(r2[0]);
    let s4 = s3.advance(r3[0]);
    let s5 = s4.advance(r4[0]);
    assert(s0.run(r0) == s1.run(r1));
    assert(s1.run(r1) == s2.run(r2));
    assert(s2.run(r2) == s3.run(r3));
    assert(s3.run(r3) == s4.run(r4));
    assert(s4.run(r4) == s5.run(Seq::<ReplyView>::empty()));
    assert(s5.run(Seq::<ReplyView>::empty()) == s5);
}

/// A repository without a place for the stack state, or without a
/// `config.json` in that place, has no stacks: the listing is empty, and no
/// error.
pub proof fn lemma_no_config_no_stacks(found: DotGitView)
    ensures
        state_dir(found) is None ==> StackListView::Locating.advance(ReplyView::DotGit { found })
            == (StackListView::Done { result: Ok(Seq::empty()) }),
        state_dir(found) is Some ==> StackListView::Locating.advance(
            ReplyView::DotGit { found },
        ).advance(ReplyView::Exists { present: false }) == (StackListView::Done {
            result: Ok(Seq::empty()),
        }),
{
}

/// Every stack of a listing comes from one of the stacks found, and no two
/// stacks of a listing have the same name.
pub proof fn lemma_counted_names_differ(
    found: Seq<SeedRecord>,
    current: Option<Seq<char>>,
    counts: Seq<OutcomeView>,
)
    requires
        forall|i: int, j: int| 0 <= i < j < found.len() ==> found[i].name != found[j].name,
    ensures
        counted(found, current, counts) matches Ok(stacks) ==> {
            &&& forall|k: int|
                0 <= k < stacks.len() ==> has_name(found, (#[trigger] stacks[k]).name)
            &&& forall|k: int, l: int|
                0 <= k < l < stacks.len() ==> stacks[k].name != stacks[l].name
        },
    decreases found.len(),
{
    if found.len() == 0 || counts.len() == 0 {
    } else {
        let init = found.drop_last();
        lemma_counted_names_differ(init, current, counts.drop_last());
        match (counted(init, current, counts.drop_last()), counted(found, current, counts)) {
            (Ok(sorted), Ok(stacks)) => {
                let stack = grown(found.last(), current, commit_count(counts.last()));
                let slot = crate::stack::name_slot(sorted, stack.name);
                crate::stack::lemma_name_slot(sorted, stack.name);
                assert(stacks == sorted.insert(slot, stack));
                assert forall|k: int| 0 <= k < stacks.len() implies has_name(
                    found,
                    (#[trigger] stacks[k]).name,
                ) by {
                    if k < slot {
                        assert(stacks[k] == sorted[k]);
                        let i = choose|i: int|
                            0 <= i < init.len() && (#[trigger] init[i]).name == sorted[k].name;
                        assert(found[i] == init[i]);
                    } else if k == slot {
                        assert(found[found.len() - 1].name == stack.name);
                    } else {
                        assert(stacks[k] == sorted[k - 1]);
                        let i = choose|i: int|
                            0 <= i < init.len() && (#[trigger] init[i]).name == sorted[k - 1].name;
                        assert(found[i] == init[i]);
                    }
                }
                assert forall|k: int| 0 <= k < sorted.len() implies (#[trigger] sorted[k]).name
                    != stack.name by {
                    let i = choose|i: int|
                        0 <= i < init.len() && (#[trigger] init[i]).name == sorted[k].name;
                    assert(found[i] == init[i]);
                }
                assert forall|k: int, l: int| 0 <= k < l < stacks.len() implies stacks[k].name
                    != stacks[l].name by {
                    if l < slot {
                        assert(stacks[k] == sorted[k] && stacks[l] == sorted[l]);
                    } else if l == slot {
                        assert(stacks[k] == sorted[k]);
                    } else if k < slot {
                        assert(stacks[k] == sorted[k] && stacks[l] == sorted[l - 1]);
                    } else if k == slot {
                        assert(stacks[l] == sorted[l - 1]);
                    } else {
                        assert(stacks[k] == sorted[k - 1] && stacks[l] == sorted[l - 1]);
                    }
                }
            },
            _ => {},
        }
    }
}

} // verus!
