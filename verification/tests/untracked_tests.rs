use ai_review::untracked::{
    append_untracked, build_binary_file_diff, build_new_file_diff, build_untracked_file_diff,
};

#[test]
fn test_build_new_file_diff() {
    let diff = build_new_file_diff("src/new.rs", "line 1\nline 2\n");

    assert!(diff.contains("diff --git a/src/new.rs b/src/new.rs"));
    assert!(diff.contains("new file mode 100644"));
    assert!(diff.contains("--- /dev/null"));
    assert!(diff.contains("+++ b/src/new.rs"));
    assert!(diff.contains("@@ -0,0 +1,3 @@"));
    assert!(diff.contains("+line 1\n+line 2\n+\n"));
}

#[test]
fn test_build_new_file_diff_without_trailing_newline() {
    let diff = build_new_file_diff("README.md", "hello");

    assert!(diff.contains("@@ -0,0 +1,1 @@"));
    assert!(diff.contains("+hello\n"));
}

#[test]
fn test_build_binary_file_diff() {
    let diff = build_binary_file_diff("assets/logo.png");

    assert!(diff.contains("diff --git a/assets/logo.png b/assets/logo.png"));
    assert!(diff.contains("new file mode 100644"));
    assert!(diff.contains("Binary file assets/logo.png added"));
    assert!(!diff.contains("--- /dev/null"));
}

#[test]
fn new_file_diff_is_exact() {
    assert_eq!(
        build_new_file_diff("src/new.rs", "line 1\nline 2\n"),
        "diff --git a/src/new.rs b/src/new.rs\nnew file mode 100644\n--- /dev/null\n+++ b/src/new.rs\n@@ -0,0 +1,3 @@\n+line 1\n+line 2\n+\n"
    );
    assert_eq!(
        build_new_file_diff("README.md", "hello"),
        "diff --git a/README.md b/README.md\nnew file mode 100644\n--- /dev/null\n+++ b/README.md\n@@ -0,0 +1,1 @@\n+hello\n"
    );
}

#[test]
fn new_file_diff_of_empty_content_has_no_lines() {
    assert_eq!(
        build_new_file_diff("empty", ""),
        "diff --git a/empty b/empty\nnew file mode 100644\n--- /dev/null\n+++ b/empty\n@@ -0,0 +1,0 @@\n"
    );
}

#[test]
fn new_file_diff_brings_line_ends_to_line_feeds() {
    let diff = build_new_file_diff("a.txt", "one\r\ntwo\r\n");
    assert!(diff.ends_with("@@ -0,0 +1,3 @@\n+one\n+two\n+\n"));
    let lone = build_new_file_diff("a.txt", "one\rtwo");
    assert!(lone.ends_with("@@ -0,0 +1,1 @@\n+one\rtwo\n"));
}

#[test]
fn new_file_diff_counts_many_lines() {
    let mut content = String::new();
    for i in 0..12 {
        content.push_str(&format!("{}\n", i));
    }
    let diff = build_new_file_diff("n", &content);
    assert!(diff.contains("@@ -0,0 +1,13 @@\n+0\n+1\n"));
    assert!(diff.ends_with("+11\n+\n"));
}

#[test]
fn binary_file_diff_is_exact() {
    assert_eq!(
        build_binary_file_diff("assets/logo.png"),
        "diff --git a/assets/logo.png b/assets/logo.png\nnew file mode 100644\nBinary file assets/logo.png added\n"
    );
}

#[test]
fn untracked_bytes_that_are_text_give_a_text_diff() {
    let diff = build_untracked_file_diff("notes.txt", "héllo\n".as_bytes().to_vec());
    assert_eq!(diff, build_new_file_diff("notes.txt", "héllo\n"));
}

#[test]
fn untracked_bytes_that_are_no_text_give_the_placeholder() {
    let diff = build_untracked_file_diff("blob.bin", vec![0xff, 0xfe, 0x00, 0x80]);
    assert_eq!(diff, build_binary_file_diff("blob.bin"));
}

#[test]
fn untracked_diffs_start_on_their_own_line() {
    assert_eq!(append_untracked("abc".to_string(), "xyz\n"), "abc\nxyz\n");
    assert_eq!(append_untracked("abc\n".to_string(), "xyz\n"), "abc\nxyz\n");
    assert_eq!(append_untracked(String::new(), "xyz\n"), "xyz\n");
    assert_eq!(append_untracked("abc".to_string(), ""), "abc");
}
