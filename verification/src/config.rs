//! The list of repositories that the program remembers.

use vstd::prelude::*;
use crate::text::views;

verus! {

/// The remembered repositories, by path.
#[derive(Debug, PartialEq, Eq)]
pub struct Config {
    pub repos: Vec<String>,
}

impl View for Config {
    type V = Seq<Seq<char>>;

    open spec fn view(&self) -> Seq<Seq<char>> {
        views(self.repos@)
    }
}

impl Default for Config {
    /// The list without a repository.
    fn default() -> (config: Config)
        ensures
            config@ == Seq::<Seq<char>>::empty(),
    {
        let config = Config { repos: Vec::new() };
        assert(config@ == Seq::<Seq<char>>::empty());
        config
    }
}

/// What the file system says of a remembered path.
#[derive(Debug, PartialEq, Eq)]
pub struct PathInfo {
    /// Whether anything exists at the path.
    pub exists: bool,
    /// The last component of the path, where it has one.
    pub file_name: Option<String>,
}

/// `repos` without every path equal to `path`.
pub open spec fn without_repo(repos: Seq<Seq<char>>, path: Seq<char>) -> Seq<Seq<char>> {
    repos.filter_map(
        |p: Seq<char>|
            if p != path {
                Some(p)
            } else {
                None
            },
    )
}

/// The name and the path of the `i`-th repository, where it exists. A path
/// without a last component is its own name.
pub open spec fn repo_entry(repos: Seq<Seq<char>>, found: Seq<PathInfo>, i: int) -> Option<
    (Seq<char>, Seq<char>),
> {
    if i < found.len() && found[i].exists {
        Some(
            (
                match found[i].file_name {
                    Some(name) => name@,
                    None => repos[i],
                },
                repos[i],
            ),
        )
    } else {
        None
    }
}

/// Name and path of those of the first `n` repositories that exist.
pub open spec fn repo_entries(repos: Seq<Seq<char>>, found: Seq<PathInfo>, n: nat) -> Seq<
    (Seq<char>, Seq<char>),
>
    decreases n,
{
    if n == 0 {
        Seq::empty()
    } else {
        match repo_entry(repos, found, n - 1) {
            Some(entry) => repo_entries(repos, found, (n - 1) as nat).push(entry),
            None => repo_entries(repos, found, (n - 1) as nat),
        }
    }
}

/// What a pair of strings holds.
pub open spec fn pair_text(p: (String, String)) -> (Seq<char>, Seq<char>) {
    (p.0@, p.1@)
}

fn holds(repos: &Vec<String>, path: &str) -> (b: bool)
    ensures
        b == views(repos@).contains(path@),
{
    let mut i: usize = 0;
    while i < repos.len()
        invariant
            i <= repos.len(),
            forall|j: int| 0 <= j < i ==> views(repos@)[j] != path@,
        decreases repos.len() - i,
    {
        assert(views(repos@)[i as int] == repos@[i as int]@);
        if crate::text::same(
            crate::text::chars_of(repos[i].as_str()).as_slice(),
            crate::text::chars_of(path).as_slice(),
        ) {
            return true;
        }
        i += 1;
    }
    false
}

/// Remembers the repository at `canonical`, a path in canonical form, unless
/// it is remembered already. Says whether the list has changed.
pub fn add_repo(config: &mut Config, canonical: String) -> (added: bool)
    ensures
        added == !old(config)@.contains(canonical@),
        final(config)@ == if added {
            old(config)@.push(canonical@)
        } else {
            old(config)@
        },
{
    if holds(&config.repos, canonical.as_str()) {
        false
    } else {
        let ghost before = config@;
        config.repos.push(canonical);
        assert(config@ == before.push(canonical@));
        true
    }
}

/// Forgets the repository at `path`.
pub fn remove_repo(config: &mut Config, path: &str)
    ensures
        final(config)@ == without_repo(old(config)@, path@),
{
    let mut kept: Vec<String> = Vec::new();
    let ghost f = |p: Seq<char>|
        if p != path@ {
            Some(p)
        } else {
            None
        };
    let wanted = crate::text::chars_of(path);
    for i in 0..config.repos.len()
        invariant
            wanted@ == path@,
            *config == *old(config),
            f == |p: Seq<char>|
                if p != path@ {
                    Some(p)
                } else {
                    None
                },
            views(kept@) == config@.take(i as int).filter_map(f),
    {
        proof {
            config@.lemma_filter_map_take_succ(f, i as int);
            assert(config@[i as int] == config.repos@[i as int]@);
        }
        let ghost before = views(kept@);
        let here = crate::text::chars_of(config.repos[i].as_str());
        if !crate::text::same(here.as_slice(), wanted.as_slice()) {
            kept.push(config.repos[i].clone());
            assert(views(kept@) == before.push(config.repos@[i as int]@));
        }
    }
    assert(config@.take(config.repos.len() as int) == config@);
    config.repos = kept;
}

/// Name and path of the remembered repositories that still exist, in the
/// list's order. `found[i]` says what is at the `i`-th path; a path of which
/// nothing is said counts as gone.
pub fn list_repos(config: &Config, found: &Vec<PathInfo>) -> (repos: Vec<(String, String)>)
    ensures
        repos@.map_values(|p: (String, String)| pair_text(p)) == repo_entries(
            config@,
            found@,
            config@.len(),
        ),
{
    let mut repos: Vec<(String, String)> = Vec::new();
    for i in 0..config.repos.len()
        invariant
            repos@.map_values(|p: (String, String)| pair_text(p)) == repo_entries(
                config@,
                found@,
                i as nat,
            ),
    {
        let ghost before = repos@.map_values(|p: (String, String)| pair_text(p));
        assert(config@[i as int] == config.repos@[i as int]@);
        if i < found.len() && found[i].exists {
            let path = config.repos[i].clone();
            let name = match &found[i].file_name {
                Some(name) => name.clone(),
                None => path.clone(),
            };
            repos.push((name, path));
            assert(repos@.map_values(|p: (String, String)| pair_text(p)) == before.push(
                repo_entry(config@, found@, i as int)->0,
            ));
        }
    }
    repos
}

} // verus!
