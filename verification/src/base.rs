//! The base of a branch: the commit from which a comparison with the branch
//! starts. It is the common ancestor of the branch and of `main`, or of the
//! current branch where there is no `main`.

use vstd::prelude::*;
use crate::diff::{probe_main_args, probe_main_command, resolve_head_args, resolve_head_command};
use crate::git::{
    not_started, result_text, OutcomeView, Reply, ReplyView, Request, RequestView,
};
use crate::query::trimmed_string;
use crate::text::{trimmed, views};

verus! {

/// The query for the base of a branch, under way.
#[derive(Debug, PartialEq, Eq)]
pub enum BranchBase {
    /// Whether the branch `main` exists is asked.
    ProbeMain { branch: String },
    /// There is no `main`; the name of the current branch is asked.
    ResolveHead { branch: String },
    /// The common ancestor of `base` and `branch` is asked.
    MergeBase { base: String, branch: String },
    /// The answer.
    Done { result: Result<String, String> },
}

/// What a `BranchBase` holds.
pub enum BranchBaseView {
    ProbeMain { branch: Seq<char> },
    ResolveHead { branch: Seq<char> },
    MergeBase { base: Seq<char>, branch: Seq<char> },
    Done { result: Result<Seq<char>, Seq<char>> },
}

impl View for BranchBase {
    type V = BranchBaseView;

    open spec fn view(&self) -> BranchBaseView {
        match self {
            BranchBase::ProbeMain { branch } => BranchBaseView::ProbeMain { branch: branch@ },
            BranchBase::ResolveHead { branch } => BranchBaseView::ResolveHead { branch: branch@ },
            BranchBase::MergeBase { base, branch } => BranchBaseView::MergeBase {
                base: base@,
                branch: branch@,
            },
            BranchBase::Done { result } => BranchBaseView::Done { result: result_text(*result) },
        }
    }
}

/// What the run of `git merge-base` gives as the base: the commit that git
/// printed, or the name `base` itself where git found none.
pub open spec fn merge_base(outcome: OutcomeView, base: Seq<char>) -> Result<Seq<char>, Seq<char>> {
    match outcome {
        OutcomeView::NotStarted { reason } => Err(not_started("Failed to find merge-base"@, reason)),
        OutcomeView::Exited { success, stdout, stderr } => if success {
            Ok(trimmed(stdout))
        } else {
            Ok(base)
        },
    }
}

impl BranchBaseView {
    /// What the query asks for next; nothing once it holds its answer.
    pub open spec fn pending(self) -> Option<RequestView> {
        match self {
            BranchBaseView::ProbeMain { branch } => Some(
                RequestView::Git { args: probe_main_args() },
            ),
            BranchBaseView::ResolveHead { branch } => Some(
                RequestView::Git { args: resolve_head_args() },
            ),
            BranchBaseView::MergeBase { base, branch } => Some(
                RequestView::Git { args: seq!["merge-base"@, base, branch] },
            ),
            BranchBaseView::Done { result } => None,
        }
    }

    /// The query after `reply`. A reply that does not answer what the query
    /// asked for leaves it as it is.
    pub open spec fn advance(self, reply: ReplyView) -> BranchBaseView {
        match (self, reply) {
            (BranchBaseView::ProbeMain { branch }, ReplyView::Git { outcome }) => {
                if outcome.succeeded() {
                    BranchBaseView::MergeBase { base: "main"@, branch }
                } else {
                    BranchBaseView::ResolveHead { branch }
                }
            },
            (BranchBaseView::ResolveHead { branch }, ReplyView::Git { outcome }) => {
                match outcome.checked("Failed to resolve current branch"@) {
                    Ok(text) => BranchBaseView::MergeBase { base: trimmed(text), branch },
                    Err(message) => BranchBaseView::Done { result: Err(message) },
                }
            },
            (BranchBaseView::MergeBase { base, branch }, ReplyView::Git { outcome }) => {
                BranchBaseView::Done { result: merge_base(outcome, base) }
            },
            _ => self,
        }
    }
}

/// The query for the base of `branch`.
pub fn get_branch_base(branch: &str) -> (q: BranchBase)
    ensures
        q@ == (BranchBaseView::ProbeMain { branch: branch@ }),
{
    BranchBase::ProbeMain { branch: branch.to_owned() }
}

impl BranchBase {
    /// What the query asks for next; nothing once it holds its answer.
    pub fn pending(&self) -> (r: Option<Request>)
        ensures
            match r {
                Some(request) => self@.pending() == Some(request@),
                None => self@.pending() is None,
            },
    {
        match self {
            BranchBase::ProbeMain { branch } => Some(Request::Git { args: probe_main_command() }),
            BranchBase::ResolveHead { branch } => Some(
                Request::Git { args: resolve_head_command() },
            ),
            BranchBase::MergeBase { base, branch } => {
                let args: Vec<String> = vec!["merge-base".to_owned(), base.clone(), branch.clone()];
                assert(views(args@) == seq!["merge-base"@, base@, branch@]);
                Some(Request::Git { args })
            },
            BranchBase::Done { result } => None,
        }
    }

    /// The query after `reply`.
    pub fn advance(self, reply: Reply) -> (next: BranchBase)
        ensures
            next@ == self@.advance(reply@),
    {
        match self {
            BranchBase::ProbeMain { branch } => match reply {
                Reply::Git { outcome } => {
                    if outcome.succeeded() {
                        BranchBase::MergeBase { base: "main".to_owned(), branch }
                    } else {
                        BranchBase::ResolveHead { branch }
                    }
                },
                _ => BranchBase::ProbeMain { branch },
            },
            BranchBase::ResolveHead { branch } => match reply {
                Reply::Git { outcome } => {
                    match outcome.check("Failed to resolve current branch") {
                        Ok(text) => BranchBase::MergeBase {
                            base: trimmed_string(text.as_str()),
                            branch,
                        },
                        Err(message) => BranchBase::Done { result: Err(message) },
                    }
                },
                _ => BranchBase::ResolveHead { branch },
            },
            BranchBase::MergeBase { base, branch } => match reply {
                Reply::Git { outcome } => {
                    let found = outcome.succeeded();
                    match outcome.output("Failed to find merge-base") {
                        Ok(text) => if found {
                            BranchBase::Done { result: Ok(trimmed_string(text.as_str())) }
                        } else {
                            BranchBase::Done { result: Ok(base) }
                        },
                        Err(message) => BranchBase::Done { result: Err(message) },
                    }
                },
                _ => BranchBase::MergeBase { base, branch },
            },
            BranchBase::Done { result } => BranchBase::Done { result },
        }
    }

    /// The answer, once the query holds it.
    pub fn finish(self) -> (r: Option<Result<String, String>>)
        ensures
            match r {
                Some(result) => self@ == (BranchBaseView::Done { result: result_text(result) }),
                None => !(self@ is Done),
            },
    {
        match self {
            BranchBase::Done { result } => Some(result),
            _ => None,
        }
    }
}

} // verus!
