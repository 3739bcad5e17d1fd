use ai_review::status::{parse_file_status, parse_porcelain_status};

#[test]
fn test_parse_porcelain_status_modified() {
    let output = " M src/main.rs\n";
    let files = parse_porcelain_status(output, false);

    assert_eq!(files.len(), 1);
    assert_eq!(files[0].path, "src/main.rs");
    assert_eq!(files[0].status, "modified");
}

#[test]
fn test_parse_porcelain_status_added() {
    let output = "A  src/new.rs\n";
    let files = parse_porcelain_status(output, false);

    assert_eq!(files.len(), 1);
    assert_eq!(files[0].path, "src/new.rs");
    assert_eq!(files[0].status, "added");
}

#[test]
fn test_parse_porcelain_status_deleted() {
    let output = " D src/old.rs\n";
    let files = parse_porcelain_status(output, false);

    assert_eq!(files.len(), 1);
    assert_eq!(files[0].path, "src/old.rs");
    assert_eq!(files[0].status, "deleted");
}

#[test]
fn test_parse_porcelain_status_multiple() {
    let output = " M src/main.rs\nA  src/new.rs\n D src/old.rs\n";
    let files = parse_porcelain_status(output, false);

    assert_eq!(files.len(), 3);
    assert_eq!(files[0].status, "modified");
    assert_eq!(files[1].status, "added");
    assert_eq!(files[2].status, "deleted");
}

#[test]
fn test_parse_porcelain_status_untracked_as_added() {
    let output = "?? src/untracked.rs\n";
    let files = parse_porcelain_status(output, false);

    assert_eq!(files.len(), 1);
    assert_eq!(files[0].path, "src/untracked.rs");
    assert_eq!(files[0].status, "added");
}

#[test]
fn test_parse_porcelain_status_empty() {
    let output = "";
    let files = parse_porcelain_status(output, false);

    assert_eq!(files.len(), 0);
}

#[test]
fn test_parse_porcelain_status_modified_both() {
    let output = "MM src/file.rs\n";
    let files = parse_porcelain_status(output, false);

    assert_eq!(files.len(), 1);
    assert_eq!(files[0].status, "modified");
}

#[test]
fn test_parse_porcelain_status_staged_only() {
    let output = "M  src/staged.rs\n M src/unstaged.rs\n";
    let files = parse_porcelain_status(output, true);

    // Only the staged file (M with space after) should be returned
    assert_eq!(files.len(), 1);
    assert_eq!(files[0].path, "src/staged.rs");
    assert_eq!(files[0].status, "modified");
}

#[test]
fn test_parse_porcelain_status_unstaged_all() {
    let output = "M  src/staged.rs\n M src/unstaged.rs\n";
    let files = parse_porcelain_status(output, false);

    // Both files should be returned for unstaged
    assert_eq!(files.len(), 2);
}

#[test]
fn test_parse_file_status_modified() {
    let output = "M\tsrc/main.rs\n";
    let files = parse_file_status(output);

    assert_eq!(files.len(), 1);
    assert_eq!(files[0].path, "src/main.rs");
    assert_eq!(files[0].status, "modified");
}

#[test]
fn test_parse_file_status_added() {
    let output = "A\tsrc/new.rs\n";
    let files = parse_file_status(output);

    assert_eq!(files.len(), 1);
    assert_eq!(files[0].path, "src/new.rs");
    assert_eq!(files[0].status, "added");
}

#[test]
fn test_parse_file_status_deleted() {
    let output = "D\tsrc/old.rs\n";
    let files = parse_file_status(output);

    assert_eq!(files.len(), 1);
    assert_eq!(files[0].path, "src/old.rs");
    assert_eq!(files[0].status, "deleted");
}

#[test]
fn test_parse_file_status_multiple() {
    let output = "M\tsrc/main.rs\nA\tsrc/new.rs\nD\tsrc/old.rs\n";
    let files = parse_file_status(output);

    assert_eq!(files.len(), 3);
    assert_eq!(files[0].status, "modified");
    assert_eq!(files[1].status, "added");
    assert_eq!(files[2].status, "deleted");
}

#[test]
fn test_parse_file_status_empty() {
    let output = "";
    let files = parse_file_status(output);

    assert_eq!(files.len(), 0);
}

#[test]
fn test_parse_file_status_invalid_line() {
    let output = "M\n";
    let files = parse_file_status(output);

    assert_eq!(files.len(), 0);
}

#[test]
fn staged_lines_are_kept_by_their_index_column() {
    for x in [' ', '?', 'M', 'A', 'D', 'R', 'C', 'U', 'T', '!', 'x'] {
        for y in [' ', '?', 'M', 'A', 'D', 'R', 'C', 'U'] {
            let line = format!("{}{} some/path.rs\n", x, y);
            let files = parse_porcelain_status(&line, true);
            if x == ' ' || x == '?' {
                assert_eq!(files.len(), 0, "for {:?}", line);
            } else {
                assert_eq!(files.len(), 1, "for {:?}", line);
                assert_eq!(files[0].path, "some/path.rs");
                let expected = match x {
                    'A' => "added",
                    'D' => "deleted",
                    'R' => "renamed",
                    _ => "modified",
                };
                assert_eq!(files[0].status, expected, "for {:?}", line);
            }
        }
    }
}

#[test]
fn unstaged_lines_follow_the_order_of_the_rules() {
    let expected = |x: char, y: char| {
        if y == 'M' {
            "modified"
        } else if x == 'M' {
            "modified"
        } else if x == 'A' {
            "added"
        } else if y == 'D' || x == 'D' {
            "deleted"
        } else if x == 'R' {
            "renamed"
        } else if x == '?' && y == '?' {
            "added"
        } else {
            "modified"
        }
    };
    for x in [' ', '?', 'M', 'A', 'D', 'R', 'C', 'U', '!'] {
        for y in [' ', '?', 'M', 'A', 'D', 'R', 'C', 'U', '!'] {
            let line = format!("{}{} p\n", x, y);
            let files = parse_porcelain_status(&line, false);
            assert_eq!(files.len(), 1, "for {:?}", line);
            assert_eq!(files[0].path, "p");
            assert_eq!(files[0].status, expected(x, y), "for {:?}", line);
        }
    }
    assert_eq!(parse_porcelain_status("DM gone-and-back.rs\n", false)[0].status, "modified");
    assert_eq!(parse_porcelain_status("AD added-then-deleted.rs\n", false)[0].status, "added");
    assert_eq!(parse_porcelain_status("RD moved-then-deleted.rs\n", false)[0].status, "deleted");
    assert_eq!(parse_porcelain_status("R  old -> new\n", false)[0].status, "renamed");
    assert_eq!(parse_porcelain_status("R  old -> new\n", false)[0].path, "old -> new");
}

#[test]
fn short_lines_are_dropped_and_paths_trimmed() {
    assert_eq!(parse_porcelain_status("M \nM  \n\nMM\n", false).len(), 0);
    let files = parse_porcelain_status("M  a\nM   b  \r\nMxyc\nMxc\nM  \u{e9}\n", false);
    let paths: Vec<&str> = files.iter().map(|f| f.path.as_str()).collect();
    assert_eq!(paths, vec!["a", "b", "c", "\u{e9}"]);
    let last = parse_porcelain_status("M  a\n D b", false);
    assert_eq!(last.len(), 2);
    assert_eq!(last[1].path, "b");
    assert_eq!(parse_porcelain_status("M   ", false)[0].path, "");
}

#[test]
fn name_status_codes_are_single_letters() {
    let files = parse_file_status("R100\told.rs\tnew.rs\nR\ta\nC\tb\n  A   c   d\nMM e\n\nD\n");
    let seen: Vec<(&str, &str)> =
        files.iter().map(|f| (f.path.as_str(), f.status.as_str())).collect();
    assert_eq!(
        seen,
        vec![
            ("old.rs", "modified"),
            ("a", "renamed"),
            ("b", "modified"),
            ("c", "added"),
            ("e", "modified"),
        ]
    );
}
