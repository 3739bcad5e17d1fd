//! Reading a git repository for a review tool: diffs, changed files, commits,
//! branches, worktrees and review stacks.
//!
//! The crate runs nothing and reads nothing itself. Its parsers turn the text
//! that git prints into records, and its queries say which command to run
//! next and what to make of how it ended; the program around the crate runs
//! the commands. What the crate decides is proved against contracts over the
//! characters of its input. What it takes from `serde_json` and from two
//! functions of `String` stands behind contracts that are declared, not
//! proved; they are marked where they stand.

pub mod base;
pub mod config;
pub mod diff;
pub mod files;
pub mod git;
pub mod history;
pub mod json;
pub mod number;
pub mod query;
pub mod split;
pub mod stack;
pub mod stacks;
pub mod status;
pub mod text;
pub mod untracked;
pub mod worktree;
