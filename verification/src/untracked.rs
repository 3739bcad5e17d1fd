//! Diffs for untracked files. Git leaves such files out of `git diff`; the
//! text made here shows each of them as a newly added file, so that every
//! change reads alike.

use vstd::prelude::*;
use vstd::string::StringExecFns;
use vstd::utf8::{decode_utf8, valid_utf8};
use crate::number::{decimal, push_decimal};
use crate::split::{lines, replace, replaced, split_lines};
use crate::text::{chars_of, pieces, push_chars};

verus! {

/// The placeholder for an untracked file whose bytes are no text.
pub open spec fn binary_file_diff(path: Seq<char>) -> Seq<char> {
    "diff --git a/"@ + path + " b/"@ + path + "\nnew file mode 100644\nBinary file "@ + path
        + " added\n"@
}

/// The lines that the hunk of a new file shows. Line ends are brought to a
/// single line feed first. Text that ends with a line feed gets one more,
/// empty line.
pub open spec fn new_file_lines(content: Seq<char>) -> Seq<Seq<char>> {
    let text = replaced(content, seq!['\r', '\n'], seq!['\n']);
    if text.len() > 0 && text.last() == '\n' {
        lines(text).push(Seq::empty())
    } else {
        lines(text)
    }
}

/// Each line of `ls` behind a `+` and before a line feed.
pub open spec fn added_lines(ls: Seq<Seq<char>>) -> Seq<char>
    decreases ls.len(),
{
    if ls.len() == 0 {
        Seq::empty()
    } else {
        added_lines(ls.drop_last()) + seq!['+'] + ls.last() + seq!['\n']
    }
}

/// The header of a new file's diff up to the hunk's line count.
pub open spec fn new_file_header(path: Seq<char>) -> Seq<char> {
    "diff --git a/"@ + path + " b/"@ + path + "\nnew file mode 100644\n--- /dev/null\n+++ b/"@
        + path + "\n@@ -0,0 +1,"@
}

/// The unified diff that shows `content` as the whole of a new file at `path`:
/// the header, one hunk that counts the lines of `new_file_lines`, and those
/// lines as additions.
pub open spec fn new_file_diff(path: Seq<char>, content: Seq<char>) -> Seq<char> {
    let ls = new_file_lines(content);
    new_file_header(path) + decimal(ls.len()) + " @@\n"@ + added_lines(ls)
}

/// The diff that stands for an untracked file which is not valid UTF-8.
pub fn build_binary_file_diff(file_path: &str) -> (diff: String)
    ensures
        diff@ == binary_file_diff(file_path@),
{
    let mut diff = String::new();
    diff.append("diff --git a/");
    diff.append(file_path);
    diff.append(" b/");
    diff.append(file_path);
    diff.append("\nnew file mode 100644\nBinary file ");
    diff.append(file_path);
    diff.append(" added\n");
    assert(diff@ == binary_file_diff(file_path@));
    diff
}

/// The diff that stands for an untracked text file.
pub fn build_new_file_diff(file_path: &str, content: &str) -> (diff: String)
    ensures
        diff@ == new_file_diff(file_path@, content@),
{
    let raw = chars_of(content);
    let crlf: Vec<char> = vec!['\r', '\n'];
    let lf: Vec<char> = vec!['\n'];
    assert(crlf@ == seq!['\r', '\n']);
    assert(lf@ == seq!['\n']);
    let text = replace(raw.as_slice(), crlf.as_slice(), lf.as_slice());
    let mut ls = split_lines(text.as_slice());
    let ghost plain = pieces(ls@);
    if text.len() > 0 && text[text.len() - 1] == '\n' {
        let nothing = &text.as_slice()[0..0];
        assert(nothing@ == Seq::<char>::empty());
        ls.push(nothing);
        assert(pieces(ls@) == plain.push(Seq::empty()));
    }
    assert(pieces(ls@) == new_file_lines(content@));
    let mut diff = String::new();
    diff.append("diff --git a/");
    diff.append(file_path);
    diff.append(" b/");
    diff.append(file_path);
    diff.append("\nnew file mode 100644\n--- /dev/null\n+++ b/");
    diff.append(file_path);
    diff.append("\n@@ -0,0 +1,");
    assert(diff@ == new_file_header(file_path@));
    push_decimal(&mut diff, ls.len() as u64);
    diff.append(" @@\n");
    let ghost head = diff@;
    for i in 0..ls.len()
        invariant
            diff@ == head + added_lines(pieces(ls@).take(i as int)),
    {
        proof {
            let upto = pieces(ls@).take(i + 1);
            assert(upto.drop_last() == pieces(ls@).take(i as int));
            assert(upto.last() == ls@[i as int]@);
        }
        diff.push('+');
        push_chars(&mut diff, ls[i]);
        diff.push('\n');
        assert(diff@ == head + (added_lines(pieces(ls@).take(i as int)) + seq!['+'] + ls@[i as int]@
            + seq!['\n']));
    }
    assert(pieces(ls@).take(ls.len() as int) == pieces(ls@));
    diff
}

/// `String::from_utf8`: the text that `bytes` encode, where they are valid
/// UTF-8, and nothing where they are not.
#[verifier::external_body]
pub(crate) fn text_of_bytes(bytes: Vec<u8>) -> (r: Option<String>)
    ensures
        match r {
            Some(text) => valid_utf8(bytes@) && text@ == decode_utf8(bytes@),
            None => !valid_utf8(bytes@),
        },
{
    match String::from_utf8(bytes) {
        Ok(text) => Some(text),
        Err(_) => None,
    }
}

/// The diff that stands for an untracked file with these bytes: that of a new
/// text file where the bytes are valid UTF-8, the placeholder where they are
/// not.
pub open spec fn untracked_file_diff(path: Seq<char>, bytes: Seq<u8>) -> Seq<char> {
    if valid_utf8(bytes) {
        new_file_diff(path, decode_utf8(bytes))
    } else {
        binary_file_diff(path)
    }
}

/// The diff that stands for an untracked file with these bytes.
pub fn build_untracked_file_diff(file_path: &str, bytes: Vec<u8>) -> (diff: String)
    ensures
        diff@ == untracked_file_diff(file_path@, bytes@),
{
    match text_of_bytes(bytes) {
        Some(content) => build_new_file_diff(file_path, content.as_str()),
        None => build_binary_file_diff(file_path),
    }
}

/// The diff of the working tree with the diffs of the untracked files behind
/// it. Where there are any, they start on a line of their own.
pub open spec fn with_untracked(diff: Seq<char>, synthetic: Seq<char>) -> Seq<char> {
    if synthetic.len() == 0 {
        diff
    } else if diff.len() > 0 && diff.last() != '\n' {
        diff + seq!['\n'] + synthetic
    } else {
        diff + synthetic
    }
}

/// Puts the diffs of the untracked files behind the diff of the working tree.
pub fn append_untracked(diff: String, synthetic: &str) -> (all: String)
    ensures
        all@ == with_untracked(diff@, synthetic@),
{
    let mut all = diff;
    if synthetic.is_empty() {
        return all;
    }
    let chars = chars_of(all.as_str());
    if chars.len() > 0 && chars[chars.len() - 1] != '\n' {
        all.push('\n');
    }
    all.append(synthetic);
    all
}

} // verus!
