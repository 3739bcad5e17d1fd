use ai_review::history::{parse_branch_list, parse_commit_log};

#[test]
fn test_parse_commit_log_single() {
    let output =
        "abc123def456|abc123d|Initial commit|John Doe|2 days ago|HEAD -> main, origin/main\n";
    let commits = parse_commit_log(output);

    assert_eq!(commits.len(), 1);
    assert_eq!(commits[0].hash, "abc123def456");
    assert_eq!(commits[0].short_hash, "abc123d");
    assert_eq!(commits[0].message, "Initial commit");
    assert_eq!(commits[0].author, "John Doe");
    assert_eq!(commits[0].date, "2 days ago");
    assert_eq!(commits[0].refs, "HEAD -> main, origin/main");
}

#[test]
fn test_parse_commit_log_multiple() {
    let output = "abc123|abc1|First commit|Alice|1 day ago|HEAD -> main\ndef456|def4|Second commit|Bob|2 days ago|\n";
    let commits = parse_commit_log(output);

    assert_eq!(commits.len(), 2);
    assert_eq!(commits[0].hash, "abc123");
    assert_eq!(commits[0].short_hash, "abc1");
    assert_eq!(commits[0].message, "First commit");
    assert_eq!(commits[0].author, "Alice");
    assert_eq!(commits[1].hash, "def456");
    assert_eq!(commits[1].author, "Bob");
}

#[test]
fn test_parse_commit_log_no_refs() {
    let output = "abc123|abc1|Commit without refs|Alice|1 day ago|\n";
    let commits = parse_commit_log(output);

    assert_eq!(commits.len(), 1);
    assert_eq!(commits[0].refs, "");
}

#[test]
fn test_parse_commit_log_empty() {
    let output = "";
    let commits = parse_commit_log(output);

    assert_eq!(commits.len(), 0);
}

#[test]
fn test_parse_commit_log_invalid_line() {
    let output = "invalid|line\n";
    let commits = parse_commit_log(output);

    assert_eq!(commits.len(), 0);
}

#[test]
fn test_parse_commit_log_message_with_pipe() {
    let output = "abc123|abc1|Fix: update config | add tests|Alice|1 day ago|main\n";
    let commits = parse_commit_log(output);

    assert_eq!(commits.len(), 1);
    assert_eq!(commits[0].message, "Fix: update config | add tests");
    assert_eq!(commits[0].author, "Alice");
    assert_eq!(commits[0].date, "1 day ago");
    assert_eq!(commits[0].refs, "main");
}

#[test]
fn test_parse_branch_list_single() {
    let output = "main|abc1234|Initial commit|Alice|2 days ago\n";
    let branches = parse_branch_list(output);

    assert_eq!(branches.len(), 1);
    assert_eq!(branches[0].name, "main");
    assert_eq!(branches[0].short_hash, "abc1234");
    assert_eq!(branches[0].subject, "Initial commit");
    assert_eq!(branches[0].author, "Alice");
    assert_eq!(branches[0].date, "2 days ago");
}

#[test]
fn test_parse_branch_list_multiple() {
    let output = "main|abc1234|Main work|Alice|1 day ago\norigin/main|def5678|Remote main|Bob|3 days ago\n";
    let branches = parse_branch_list(output);

    assert_eq!(branches.len(), 2);
    assert_eq!(branches[0].name, "main");
    assert_eq!(branches[1].name, "origin/main");
}

#[test]
fn test_parse_branch_list_empty() {
    let branches = parse_branch_list("");
    assert_eq!(branches.len(), 0);
}

#[test]
fn test_parse_branch_list_invalid_line() {
    let branches = parse_branch_list("main|abc123\n");
    assert_eq!(branches.len(), 0);
}

#[test]
fn a_message_with_bars_comes_back_as_it_was() {
    for message in ["", "|", "a|b", "||x||", "Fix: update config | add tests", "a | b | c | d | e | f"] {
        let line = format!("h|s|{}|author|date|refs\n", message);
        let commits = parse_commit_log(&line);
        assert_eq!(commits.len(), 1, "for {:?}", line);
        assert_eq!(commits[0].hash, "h");
        assert_eq!(commits[0].short_hash, "s");
        assert_eq!(commits[0].message, message);
        assert_eq!(commits[0].author, "author");
        assert_eq!(commits[0].date, "date");
        assert_eq!(commits[0].refs, "refs");
    }
}

#[test]
fn writing_a_log_out_and_reading_it_again_changes_nothing() {
    let text = "abc123|abc1|First | commit|Alice|1 day ago|HEAD -> main\ndef456|def4|Second commit|Bob|2 days ago|\n";
    let commits = parse_commit_log(text);
    let mut written = String::new();
    for c in &commits {
        written.push_str(&format!(
            "{}|{}|{}|{}|{}|{}\n",
            c.hash, c.short_hash, c.message, c.author, c.date, c.refs
        ));
    }
    assert_eq!(written, text);
    assert_eq!(parse_commit_log(&written), commits);
}

#[test]
fn a_line_of_five_fields_gives_its_third_twice() {
    let commits = parse_commit_log("h|s|m|d|r\n");
    assert_eq!(commits.len(), 1);
    assert_eq!(commits[0].message, "m");
    assert_eq!(commits[0].author, "m");
    assert_eq!(commits[0].date, "d");
    assert_eq!(commits[0].refs, "r");
    assert_eq!(parse_commit_log("h|s|m|d\n").len(), 0);
}

#[test]
fn a_branch_line_of_more_fields_keeps_the_first_five() {
    let branches = parse_branch_list("n|h|s|a|d|extra|more\nshort|line\n\nx|y|z|u|\n");
    assert_eq!(branches.len(), 2);
    assert_eq!(branches[0].date, "d");
    assert_eq!(branches[1].name, "x");
    assert_eq!(branches[1].date, "");
}
