use ai_review::files::{list_files, FileList};
use ai_review::git::{DirItem, DotGit, Outcome, Reply, Request};

fn file(name: &str, path: &str) -> DirItem {
    DirItem::Entry { name: name.to_string(), path: path.to_string(), is_dir: false }
}

fn dir(name: &str, path: &str) -> DirItem {
    DirItem::Entry { name: name.to_string(), path: path.to_string(), is_dir: true }
}

fn entries(items: Vec<DirItem>) -> Reply {
    Reply::Dir { entries: Ok(items) }
}

fn read_of(path: &str) -> Option<Request> {
    Some(Request::ReadDir { path: path.to_string() })
}

fn walk(max_depth: usize) -> FileList {
    list_files(max_depth).advance(Reply::DotGit { found: DotGit::Missing })
}

fn paths(items: &[&str]) -> Option<Result<Vec<String>, String>> {
    Some(Ok(items.iter().map(|s| s.to_string()).collect()))
}

#[test]
fn a_repository_lists_what_git_tracks() {
    let q = list_files(10);
    assert_eq!(q.pending(), Some(Request::InspectDotGit));
    let q = q.advance(Reply::DotGit { found: DotGit::Directory });
    assert_eq!(q.pending(), Some(Request::Git { args: vec!["ls-files".to_string()] }));
    let q = q.advance(Reply::Git {
        outcome: Outcome::Exited {
            success: true,
            stdout: "README.md\n src/a.rs \n\n".to_string(),
            stderr: String::new(),
        },
    });
    assert_eq!(q.pending(), None);
    assert_eq!(q.finish(), paths(&["README.md", "src/a.rs"]));
}

#[test]
fn without_an_answer_from_git_the_directory_is_walked() {
    let q = list_files(10)
        .advance(Reply::DotGit { found: DotGit::File { content: None } })
        .advance(Reply::Git { outcome: Outcome::NotStarted { reason: "no git".to_string() } });
    assert_eq!(q.pending(), read_of(""));
    let q = list_files(10).advance(Reply::DotGit { found: DotGit::Directory }).advance(
        Reply::Git {
            outcome: Outcome::Exited {
                success: false,
                stdout: "a\n".to_string(),
                stderr: "fatal".to_string(),
            },
        },
    );
    assert_eq!(q.pending(), read_of(""));
    assert_eq!(q.advance(entries(vec![file("a", "a")])).finish(), paths(&["a"]));
}

#[test]
fn test_walk_dir_basic() {
    let q = walk(10);
    assert_eq!(q.pending(), read_of(""));
    let q = q.advance(entries(vec![file("file1.txt", "file1.txt"), file("file2.rs", "file2.rs")]));
    assert_eq!(q.pending(), None);
    assert_eq!(q.finish(), paths(&["file1.txt", "file2.rs"]));
}

#[test]
fn test_walk_dir_nested() {
    let q = walk(10).advance(entries(vec![dir("subdir", "subdir"), file("root.txt", "root.txt")]));
    assert_eq!(q.pending(), read_of("subdir"));
    let q = q.advance(entries(vec![file("nested.txt", "subdir/nested.txt")]));
    assert_eq!(q.finish(), paths(&["subdir/nested.txt", "root.txt"]));
}

#[test]
fn test_walk_dir_skips_hidden() {
    let q = walk(10).advance(entries(vec![
        file("visible.txt", "visible.txt"),
        file(".hidden.txt", ".hidden.txt"),
        dir(".git", ".git"),
    ]));
    assert_eq!(q.finish(), paths(&["visible.txt"]));
}

#[test]
fn test_walk_dir_max_depth() {
    let q = walk(1).advance(entries(vec![file("root.txt", "root.txt"), dir("level1", "level1")]));
    assert_eq!(q.pending(), read_of("level1"));
    let q = q.advance(entries(vec![
        dir("level2", "level1/level2"),
        file("level1.txt", "level1/level1.txt"),
    ]));
    assert_eq!(q.pending(), None);
    assert_eq!(q.finish(), paths(&["root.txt", "level1/level1.txt"]));

    let q = walk(0).advance(entries(vec![dir("level1", "level1"), file("root.txt", "root.txt")]));
    assert_eq!(q.finish(), paths(&["root.txt"]));
}

#[test]
fn test_walk_dir_skips_node_modules() {
    let q = walk(10).advance(entries(vec![
        dir("node_modules", "node_modules"),
        file("package.json", "package.json"),
        dir("target", "target"),
        dir("dist", "dist"),
    ]));
    assert_eq!(q.finish(), paths(&["package.json"]));
}

#[test]
fn a_walk_takes_each_directory_before_what_follows_it() {
    let q = walk(10).advance(entries(vec![dir("a", "a"), file("z", "z"), dir("b", "b")]));
    assert_eq!(q.pending(), read_of("a"));
    let q = q.advance(entries(vec![file("1", "a/1"), dir("c", "a/c"), file("2", "a/2")]));
    assert_eq!(q.pending(), read_of("a/c"));
    let q = q.advance(entries(vec![]));
    assert_eq!(q.pending(), read_of("b"));
    let q = q.advance(entries(vec![file("3", "b/3")]));
    assert_eq!(q.finish(), paths(&["a/1", "a/2", "z", "b/3"]));
}

#[test]
fn a_walk_fails_at_the_first_thing_it_cannot_read() {
    assert_eq!(
        walk(10).advance(Reply::Dir { entries: Err("denied".to_string()) }).finish(),
        Some(Err("Failed to read directory: denied".to_string()))
    );
    let q = walk(10).advance(entries(vec![
        file("a", "a"),
        dir("d", "d"),
        DirItem::Broken { reason: "stale".to_string() },
        file("b", "b"),
    ]));
    assert_eq!(q.pending(), read_of("d"));
    assert_eq!(
        q.advance(entries(vec![])).finish(),
        Some(Err("Failed to read entry: stale".to_string()))
    );
    let q = walk(10)
        .advance(entries(vec![dir("d", "d"), DirItem::Broken { reason: "stale".to_string() }]))
        .advance(Reply::Dir { entries: Err("gone".to_string()) });
    assert_eq!(q.finish(), Some(Err("Failed to read directory: gone".to_string())));
}

#[test]
fn an_empty_directory_has_no_files() {
    assert_eq!(walk(10).advance(entries(vec![])).finish(), paths(&[]));
    let q = walk(10).advance(Reply::Exists { present: true });
    assert_eq!(q.pending(), read_of(""));
}
