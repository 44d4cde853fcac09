//! The diff of a range: what is asked of Git, and what its answers mean.

use vstd::prelude::*;

use crate::diff;
use crate::diff::{
    accept_head, accept_repository, changed_files_from_diff, committed_tree_report, head_failure,
    open_failure, parse_diff_range, DiffArchitectureStatus, DiffCommits, DiffError, DiffErrorView,
    DiffRangeMetadataView, DiffRangeSpecView, DiffReport, DiffReportView, FileDelta,
    FileDeltaView, DIFF_SCHEMA_VERSION,
};

verus! {

/// The steps of a diff between two trees.
#[derive(Debug, Clone, Copy, PartialEq, Eq, Structural)]
pub enum TreeStep {
    MergeBase,
    MergeBaseCommit,
    MergeBaseTree,
    HeadTree,
    TreeDiff,
    Renames,
}

/// What Git answers when a name is resolved to a commit.
#[derive(Debug, Clone, PartialEq, Eq)]
pub enum CommitLookup {
    Failed { message: String },
    Commit { id: String },
}

/// What Git answers when the commit at `HEAD` is looked up.
#[derive(Debug, Clone, PartialEq, Eq)]
pub enum CurrentHead {
    ReadFailed { unborn: bool, missing: bool, message: String },
    NotCommit { message: String },
    Commit { id: String },
}

/// What Git answers when two trees are diffed.
#[derive(Debug, Clone, PartialEq, Eq)]
pub enum TreesLookup {
    Failed { step: TreeStep, message: String },
    Diffed { merge_base: String, deltas: Vec<FileDelta> },
}

/// What Git answers when a range is looked up in a repository.
#[derive(Debug, Clone, PartialEq, Eq)]
pub enum RangeLookup {
    Failed { missing: bool, no_repository: bool, message: String },
    Found {
        shallow: bool,
        bare: bool,
        current: CurrentHead,
        base: CommitLookup,
        head: CommitLookup,
        trees: TreesLookup,
    },
}

/// What [`CommitLookup`] stands for.
#[verifier::ext_equal]
pub enum CommitLookupView {
    Failed { message: Seq<char> },
    Commit { id: Seq<char> },
}

impl DeepView for CommitLookup {
    type V = CommitLookupView;

    open spec fn deep_view(&self) -> CommitLookupView {
        match self {
            CommitLookup::Failed { message } => CommitLookupView::Failed { message: message@ },
            CommitLookup::Commit { id } => CommitLookupView::Commit { id: id@ },
        }
    }
}

/// What [`CurrentHead`] stands for.
#[verifier::ext_equal]
pub enum CurrentHeadView {
    ReadFailed { unborn: bool, missing: bool, message: Seq<char> },
    NotCommit { message: Seq<char> },
    Commit { id: Seq<char> },
}

impl DeepView for CurrentHead {
    type V = CurrentHeadView;

    open spec fn deep_view(&self) -> CurrentHeadView {
        match self {
            CurrentHead::ReadFailed { unborn, missing, message } => CurrentHeadView::ReadFailed { unborn: *unborn, missing: *missing, message: message@ },
            CurrentHead::NotCommit { message } => CurrentHeadView::NotCommit { message: message@ },
            CurrentHead::Commit { id } => CurrentHeadView::Commit { id: id@ },
        }
    }
}

/// What [`TreesLookup`] stands for.
#[verifier::ext_equal]
pub enum TreesLookupView {
    Failed { step: TreeStep, message: Seq<char> },
    Diffed { merge_base: Seq<char>, deltas: Seq<FileDeltaView> },
}

impl DeepView for TreesLookup {
    type V = TreesLookupView;

    open spec fn deep_view(&self) -> TreesLookupView {
        match self {
            TreesLookup::Failed { step, message } => TreesLookupView::Failed { step: *step, message: message@ },
            TreesLookup::Diffed { merge_base, deltas } => TreesLookupView::Diffed { merge_base: merge_base@, deltas: deltas.deep_view() },
        }
    }
}

/// What [`RangeLookup`] stands for.
#[verifier::ext_equal]
pub enum RangeLookupView {
    Failed { missing: bool, no_repository: bool, message: Seq<char> },
    Found { shallow: bool, bare: bool, current: CurrentHeadView, base: CommitLookupView, head: CommitLookupView, trees: TreesLookupView },
}

impl DeepView for RangeLookup {
    type V = RangeLookupView;

    open spec fn deep_view(&self) -> RangeLookupView {
        match self {
            RangeLookup::Failed { missing, no_repository, message } => RangeLookupView::Failed { missing: *missing, no_repository: *no_repository, message: message@ },
            RangeLookup::Found { shallow, bare, current, base, head, trees } => RangeLookupView::Found { shallow: *shallow, bare: *bare, current: current.deep_view(), base: base.deep_view(), head: head.deep_view(), trees: trees.deep_view() },
        }
    }
}

impl TreeStep {
    /// What is done in a step.
    pub open spec fn words(self) -> Seq<char> {
        match self {
            TreeStep::MergeBase => "computing the merge base"@,
            TreeStep::MergeBaseCommit => "loading the merge-base commit"@,
            TreeStep::MergeBaseTree => "loading the merge-base tree"@,
            TreeStep::HeadTree => "loading the head tree"@,
            TreeStep::TreeDiff => "diffing merge-base and head trees"@,
            TreeStep::Renames => "detecting renamed files"@,
        }
    }

    /// What is done in a step.
    pub fn context(self) -> (out: &'static str)
        ensures
            out@ == self.words(),
    {
        match self {
            TreeStep::MergeBase => "computing the merge base",
            TreeStep::MergeBaseCommit => "loading the merge-base commit",
            TreeStep::MergeBaseTree => "loading the merge-base tree",
            TreeStep::HeadTree => "loading the head tree",
            TreeStep::TreeDiff => "diffing merge-base and head trees",
            TreeStep::Renames => "detecting renamed files",
        }
    }
}

/// The report on a range whose commits are known.
pub open spec fn report_of(
    range: DiffRangeSpecView,
    base: Seq<char>,
    head: Seq<char>,
    trees: TreesLookupView,
) -> Result<DiffReportView, DiffErrorView> {
    match trees {
        TreesLookupView::Failed { step, message } => Err(
            DiffErrorView::Git { context: step.words(), message },
        ),
        TreesLookupView::Diffed { merge_base, deltas } => match diff::changed_files(deltas, head) {
            Err(fault) => Err(fault),
            Ok(files) => Ok(
                DiffReportView {
                    schema_version: DIFF_SCHEMA_VERSION@,
                    range: DiffRangeMetadataView {
                        requested: range.requested,
                        base_ref: range.base_ref,
                        head_ref: range.head_ref,
                        base_commit_id: base,
                        head_commit_id: head,
                        merge_base_commit_id: merge_base,
                    },
                    summary: diff::summary_of(files),
                    changed_files: files,
                    architecture: DiffArchitectureStatus::NotEvaluated,
                },
            ),
        },
    }
}

/// The report on a range of a repository that could be opened.
pub open spec fn found_report(
    path: Seq<char>,
    range: DiffRangeSpecView,
    current: CurrentHeadView,
    base: CommitLookupView,
    head: CommitLookupView,
    trees: TreesLookupView,
) -> Result<DiffReportView, DiffErrorView> {
    match current {
        CurrentHeadView::ReadFailed { unborn, missing, message } => Err(
            if unborn || missing {
                DiffErrorView::MissingHead { path }
            } else {
                DiffErrorView::Git { context: "reading HEAD"@, message }
            },
        ),
        CurrentHeadView::NotCommit { message } => Err(
            DiffErrorView::HeadNotCommit { path, message },
        ),
        CurrentHeadView::Commit { id: current } => match base {
            CommitLookupView::Failed { message } => Err(
                DiffErrorView::Git { context: "resolving diff base ref"@, message },
            ),
            CommitLookupView::Commit { id: base } => match head {
                CommitLookupView::Failed { message } => Err(
                    DiffErrorView::Git { context: "resolving diff head ref"@, message },
                ),
                CommitLookupView::Commit { id: head } => if head != current {
                    Err(
                        DiffErrorView::ResolvedHeadNotCurrentHead {
                            requested_head: range.head_ref,
                            resolved_head_commit_id: head,
                            current_head_commit_id: current,
                        },
                    )
                } else {
                    report_of(range, base, head, trees)
                },
            },
        },
    }
}

/// The report on a range, or the first reason why there is none.
pub open spec fn committed_report(
    path: Seq<char>,
    range: Seq<char>,
    lookup: RangeLookupView,
) -> Result<DiffReportView, DiffErrorView> {
    match diff::parsed_range(range) {
        Err(fault) => Err(DiffErrorView::InvalidRange(fault)),
        Ok(range) => match lookup {
            RangeLookupView::Failed { missing, no_repository, message } => Err(
                if missing || no_repository {
                    DiffErrorView::NotRepository { path, message }
                } else {
                    DiffErrorView::OpenRepository { path, message }
                },
            ),
            RangeLookupView::Found { shallow, bare, current, base, head, trees } => if shallow {
                Err(DiffErrorView::ShallowRepository { path })
            } else if bare {
                Err(DiffErrorView::BareRepository { path })
            } else {
                found_report(path, range, current, base, head, trees)
            },
        },
    }
}

/// Whether the totals of the changed files can be counted, where there are any.
pub open spec fn totals_fit(trees: TreesLookupView, head: CommitLookupView) -> bool {
    trees matches TreesLookupView::Diffed { deltas, .. } ==> head matches CommitLookupView::Commit {
        id,
    } ==> diff::changed_files(deltas, id) matches Ok(files) ==> diff::totals_fit(files)
}

/// Analyzes the changes that are committed between the ends of a range, of which the head is
/// checked out.
pub fn analyze_committed_tree_diff(worktree_path: &str, range: &str, lookup: RangeLookup) -> (r:
    Result<DiffReport, DiffError>)
    requires
        lookup.deep_view() matches RangeLookupView::Found { trees, head, .. } ==> totals_fit(
            trees,
            head,
        ),
    ensures
        match r {
            Ok(report) => committed_report(worktree_path@, range@, lookup.deep_view()) == Ok::<
                DiffReportView,
                DiffErrorView,
            >(report.deep_view()),
            Err(fault) => committed_report(worktree_path@, range@, lookup.deep_view()) == Err::<
                DiffReportView,
                DiffErrorView,
            >(fault.deep_view()),
        },
{
    let range = match parse_diff_range(range) {
        Err(fault) => return Err(DiffError::InvalidRange(fault)),
        Ok(range) => range,
    };
    match lookup {
        RangeLookup::Failed { missing, no_repository, message } => Err(
            open_failure(missing || no_repository, worktree_path, message.as_str()),
        ),
        RangeLookup::Found { shallow, bare, current, base, head, trees } => {
            match accept_repository(shallow, bare, worktree_path) {
                Err(fault) => return Err(fault),
                Ok(_) => {},
            }
            let current = match current {
                CurrentHead::ReadFailed { unborn, missing, message } => {
                    return Err(head_failure(unborn || missing, worktree_path, message.as_str()));
                },
                CurrentHead::NotCommit { message } => {
                    return Err(
                        DiffError::HeadNotCommit { path: worktree_path.to_string(), message },
                    );
                },
                CurrentHead::Commit { id } => id,
            };
            let base = match base {
                CommitLookup::Failed { message } => {
                    return Err(DiffError::Git { context: "resolving diff base ref", message });
                },
                CommitLookup::Commit { id } => id,
            };
            let head = match head {
                CommitLookup::Failed { message } => {
                    return Err(DiffError::Git { context: "resolving diff head ref", message });
                },
                CommitLookup::Commit { id } => id,
            };
            match accept_head(&range, head.as_str(), current.as_str()) {
                Err(fault) => return Err(fault),
                Ok(_) => {},
            }
            match trees {
                TreesLookup::Failed { step, message } => Err(
                    DiffError::Git { context: step.context(), message },
                ),
                TreesLookup::Diffed { merge_base, deltas } => {
                    match changed_files_from_diff(&deltas, head.as_str()) {
                        Err(fault) => Err(fault),
                        Ok(files) => Ok(
                            committed_tree_report(
                                range,
                                DiffCommits { base, head, merge_base },
                                files,
                            ),
                        ),
                    }
                },
            }
        },
    }
}

} // verus!
