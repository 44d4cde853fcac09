//! Local Git history: the change events, and what is derived from them.

pub mod cochange;
pub mod engine;
pub mod errors;
pub mod explain;
pub mod history;
pub mod laws;
pub mod metrics;
pub mod records;
pub mod stream;
pub mod told;

use vstd::prelude::*;

use crate::measure::{Real, RealView};
use crate::ownership::{OperationalOwnershipSnapshot, OperationalOwnershipSnapshotView};

verus! {

/// A raw repository-relative file change observed in one reachable commit.
#[derive(Debug, Clone, PartialEq, Eq)]
pub struct GitFileChange {
    /// Full hexadecimal commit object id.
    pub commit_id: String,
    /// Number of parents on the commit.
    pub parent_count: usize,
    /// Whether the commit has more than one parent.
    pub is_merge: bool,
    /// Exact commit author identity in `Name <email>` form.
    pub author: String,
    /// Committer timestamp as seconds since the Unix epoch.
    pub commit_time: i64,
    /// Repository-relative path using `/` separators.
    pub path: String,
    /// Git file-level change kind for this path.
    pub change_kind: GitChangeKind,
    /// Added line count reported by the selected diff.
    pub added_lines: u64,
    /// Deleted line count reported by the selected diff.
    pub deleted_lines: u64,
}

/// File-level change kind reported by Git for a selected commit diff.
#[derive(Debug, Clone, Copy, PartialEq, Eq, PartialOrd, Ord, Structural)]
pub enum GitChangeKind {
    Added,
    Modified,
    Deleted,
    Renamed,
    Copied,
    TypeChanged,
}

/// Errors that can occur while opening or traversing local Git history.
#[derive(Debug, Clone, PartialEq, Eq)]
pub enum GitHistoryError {
    NotRepository { path: String, source: String },
    OpenRepository { path: String, source: String },
    MissingHead { path: String },
    ShallowRepository { path: String },
    BareRepository { path: String },
    HeadNotCommit { path: String, source: String },
    Git { context: &'static str, source: String },
    GitCommandSpawn { context: &'static str, source: String },
    GitCommandFailed { context: &'static str, status: Option<i32>, stderr: String },
    MalformedGitStream { context: &'static str, detail: String },
    UnsupportedAuthorIdentity { commit_id: String },
    UnsupportedPathEncoding { commit_id: String },
    WorkerFailed { context: &'static str },
}

/// The file changes and record counts of one commit in the history stream.
#[derive(Debug, Clone, PartialEq, Eq)]
pub struct ParsedGitRecord {
    /// Full hexadecimal commit object id.
    pub commit_id: String,
    /// The changes, in order of path, kind and line counts.
    pub changes: Vec<GitFileChange>,
    /// Number of raw status rows.
    pub raw_records: u64,
    /// Number of line count rows.
    pub numstat_records: u64,
}

impl DeepView for GitChangeKind {
    type V = GitChangeKind;

    open spec fn deep_view(&self) -> GitChangeKind {
        *self
    }
}

/// What a [`GitFileChange`] stands for.
#[verifier::ext_equal]
pub struct GitFileChangeView {
    pub commit_id: Seq<char>,
    pub parent_count: usize,
    pub is_merge: bool,
    pub author: Seq<char>,
    pub commit_time: i64,
    pub path: Seq<char>,
    pub change_kind: GitChangeKind,
    pub added_lines: u64,
    pub deleted_lines: u64,
}

impl DeepView for GitFileChange {
    type V = GitFileChangeView;

    open spec fn deep_view(&self) -> GitFileChangeView {
        GitFileChangeView {
            commit_id: self.commit_id@,
            parent_count: self.parent_count,
            is_merge: self.is_merge,
            author: self.author@,
            commit_time: self.commit_time,
            path: self.path@,
            change_kind: self.change_kind,
            added_lines: self.added_lines,
            deleted_lines: self.deleted_lines,
        }
    }
}

/// What a [`GitHistoryError`] stands for.
#[verifier::ext_equal]
pub enum GitHistoryErrorView {
    NotRepository { path: Seq<char>, source: Seq<char> },
    OpenRepository { path: Seq<char>, source: Seq<char> },
    MissingHead { path: Seq<char> },
    ShallowRepository { path: Seq<char> },
    BareRepository { path: Seq<char> },
    HeadNotCommit { path: Seq<char>, source: Seq<char> },
    Git { context: Seq<char>, source: Seq<char> },
    GitCommandSpawn { context: Seq<char>, source: Seq<char> },
    GitCommandFailed { context: Seq<char>, status: Option<i32>, stderr: Seq<char> },
    MalformedGitStream { context: Seq<char>, detail: Seq<char> },
    UnsupportedAuthorIdentity { commit_id: Seq<char> },
    UnsupportedPathEncoding { commit_id: Seq<char> },
    WorkerFailed { context: Seq<char> },
}

impl DeepView for GitHistoryError {
    type V = GitHistoryErrorView;

    open spec fn deep_view(&self) -> GitHistoryErrorView {
        match self {
            GitHistoryError::NotRepository { path, source } => GitHistoryErrorView::NotRepository { path: path@, source: source@ },
            GitHistoryError::OpenRepository { path, source } => GitHistoryErrorView::OpenRepository { path: path@, source: source@ },
            GitHistoryError::MissingHead { path } => GitHistoryErrorView::MissingHead { path: path@ },
            GitHistoryError::ShallowRepository { path } => GitHistoryErrorView::ShallowRepository { path: path@ },
            GitHistoryError::BareRepository { path } => GitHistoryErrorView::BareRepository { path: path@ },
            GitHistoryError::HeadNotCommit { path, source } => GitHistoryErrorView::HeadNotCommit { path: path@, source: source@ },
            GitHistoryError::Git { context, source } => GitHistoryErrorView::Git { context: context@, source: source@ },
            GitHistoryError::GitCommandSpawn { context, source } => GitHistoryErrorView::GitCommandSpawn { context: context@, source: source@ },
            GitHistoryError::GitCommandFailed { context, status, stderr } => GitHistoryErrorView::GitCommandFailed { context: context@, status: status.deep_view(), stderr: stderr@ },
            GitHistoryError::MalformedGitStream { context, detail } => GitHistoryErrorView::MalformedGitStream { context: context@, detail: detail@ },
            GitHistoryError::UnsupportedAuthorIdentity { commit_id } => GitHistoryErrorView::UnsupportedAuthorIdentity { commit_id: commit_id@ },
            GitHistoryError::UnsupportedPathEncoding { commit_id } => GitHistoryErrorView::UnsupportedPathEncoding { commit_id: commit_id@ },
            GitHistoryError::WorkerFailed { context } => GitHistoryErrorView::WorkerFailed { context: context@ },
        }
    }
}

/// What a [`ParsedGitRecord`] stands for.
#[verifier::ext_equal]
pub struct ParsedGitRecordView {
    pub commit_id: Seq<char>,
    pub changes: Seq<GitFileChangeView>,
    pub raw_records: u64,
    pub numstat_records: u64,
}

impl DeepView for ParsedGitRecord {
    type V = ParsedGitRecordView;

    open spec fn deep_view(&self) -> ParsedGitRecordView {
        ParsedGitRecordView {
            commit_id: self.commit_id@,
            changes: self.changes.deep_view(),
            raw_records: self.raw_records,
            numstat_records: self.numstat_records,
        }
    }
}

/// Aggregated co-change count for one unordered repository-relative path pair.
#[derive(Debug, Clone, PartialEq, Eq)]
pub struct GitCoChange {
    /// Lexicographically smaller repository-relative path using `/` separators.
    pub left_path: String,
    /// Lexicographically larger repository-relative path using `/` separators.
    pub right_path: String,
    /// Number of distinct commits that touched both paths.
    pub commit_count: u64,
}

/// What a [`GitCoChange`] stands for.
#[verifier::ext_equal]
pub struct GitCoChangeView {
    pub left_path: Seq<char>,
    pub right_path: Seq<char>,
    pub commit_count: u64,
}

impl DeepView for GitCoChange {
    type V = GitCoChangeView;

    open spec fn deep_view(&self) -> GitCoChangeView {
        GitCoChangeView {
            left_path: self.left_path@,
            right_path: self.right_path@,
            commit_count: self.commit_count,
        }
    }
}

/// Aggregated churn and ownership metrics for one repository-relative path.
#[derive(Debug, Clone, PartialEq, Eq)]
pub struct GitFileMetrics {
    /// Repository-relative path using `/` separators.
    pub path: String,
    /// Number of distinct commits that touched this path.
    pub commits_per_file: u64,
    /// Total added lines across all observed file changes for this path.
    pub total_churn_added: u64,
    /// Total deleted lines across all observed file changes for this path.
    pub total_churn_deleted: u64,
    /// Added lines in the 90-day window relative to the HEAD commit time.
    pub recent_churn_added: u64,
    /// Deleted lines in the 90-day window relative to the HEAD commit time.
    pub recent_churn_deleted: u64,
    /// Number of distinct exact author identities that touched this path.
    pub author_count: u64,
    /// Number of meaningful operational owners identified for this path.
    pub owner_count: u64,
    /// Operational owner with the highest weighted ownership share for this path.
    pub dominant_owner: Option<String>,
    /// Dominant owner's weighted operational ownership share for this path, printed as a
    /// percentage with two decimals.
    pub dominant_owner_share: Option<Real>,
    /// Distinct files observed in commits that also touched this path.
    ///
    /// This count is saturated so that large mechanical commits cannot dominate.
    pub co_changed_file_count: u64,
    /// First observed commit id for this path by commit time, then commit id.
    pub first_commit_id: Option<String>,
    /// First observed committer timestamp for this path.
    pub first_commit_time: Option<i64>,
    /// Last observed commit id for this path by commit time, then commit id.
    pub last_commit_id: Option<String>,
    /// Last observed committer timestamp for this path.
    pub last_commit_time: Option<i64>,
    /// Whole days between first observed commit time and HEAD commit time.
    pub file_age_days: Option<u64>,
}

/// What a [`GitFileMetrics`] stands for.
#[verifier::ext_equal]
pub struct GitFileMetricsView {
    pub path: Seq<char>,
    pub commits_per_file: u64,
    pub total_churn_added: u64,
    pub total_churn_deleted: u64,
    pub recent_churn_added: u64,
    pub recent_churn_deleted: u64,
    pub author_count: u64,
    pub owner_count: u64,
    pub dominant_owner: Option<Seq<char>>,
    pub dominant_owner_share: Option<RealView>,
    pub co_changed_file_count: u64,
    pub first_commit_id: Option<Seq<char>>,
    pub first_commit_time: Option<i64>,
    pub last_commit_id: Option<Seq<char>>,
    pub last_commit_time: Option<i64>,
    pub file_age_days: Option<u64>,
}

impl DeepView for GitFileMetrics {
    type V = GitFileMetricsView;

    open spec fn deep_view(&self) -> GitFileMetricsView {
        GitFileMetricsView {
            path: self.path@,
            commits_per_file: self.commits_per_file,
            total_churn_added: self.total_churn_added,
            total_churn_deleted: self.total_churn_deleted,
            recent_churn_added: self.recent_churn_added,
            recent_churn_deleted: self.recent_churn_deleted,
            author_count: self.author_count,
            owner_count: self.owner_count,
            dominant_owner: self.dominant_owner.deep_view(),
            dominant_owner_share: self.dominant_owner_share.deep_view(),
            co_changed_file_count: self.co_changed_file_count,
            first_commit_id: self.first_commit_id.deep_view(),
            first_commit_time: self.first_commit_time.deep_view(),
            last_commit_id: self.last_commit_id.deep_view(),
            last_commit_time: self.last_commit_time.deep_view(),
            file_age_days: self.file_age_days.deep_view(),
        }
    }
}

/// Full local Git analysis for a worktree at `HEAD`.
#[derive(Debug, Clone, PartialEq, Eq)]
pub struct GitAnalysis {
    /// Canonical Git worktree root used for index persistence.
    pub worktree_root: String,
    /// Full hexadecimal object id for `HEAD`.
    pub head_commit_id: String,
    /// `HEAD` committer timestamp as seconds since the Unix epoch.
    pub head_commit_time: i64,
    /// Recent churn window in days.
    pub recent_window_days: i64,
    /// Deterministic raw file change events.
    pub changes: Vec<GitFileChange>,
    /// Aggregated file metrics sorted by path.
    pub file_metrics: Vec<GitFileMetrics>,
    /// Aggregated co-change pairs ranked by count, then paths.
    pub co_changes: Vec<GitCoChange>,
    /// Weighted operational ownership by current file path.
    pub ownership: OperationalOwnershipSnapshot,
}

/// Errors that can occur while explaining Git metrics for one file.
#[derive(Debug, Clone, PartialEq, Eq)]
pub enum GitExplainError {
    History(GitHistoryError),
    BareRepository,
    EmptyPath,
    PathOutsideRepository,
    UnsupportedPathEncoding,
    AmbiguousPath { first: String, second: String },
}

/// What a [`GitAnalysis`] stands for.
#[verifier::ext_equal]
pub struct GitAnalysisView {
    pub worktree_root: Seq<char>,
    pub head_commit_id: Seq<char>,
    pub head_commit_time: i64,
    pub recent_window_days: i64,
    pub changes: Seq<GitFileChangeView>,
    pub file_metrics: Seq<GitFileMetricsView>,
    pub co_changes: Seq<GitCoChangeView>,
    pub ownership: OperationalOwnershipSnapshotView,
}

impl DeepView for GitAnalysis {
    type V = GitAnalysisView;

    open spec fn deep_view(&self) -> GitAnalysisView {
        GitAnalysisView {
            worktree_root: self.worktree_root@,
            head_commit_id: self.head_commit_id@,
            head_commit_time: self.head_commit_time,
            recent_window_days: self.recent_window_days,
            changes: self.changes.deep_view(),
            file_metrics: self.file_metrics.deep_view(),
            co_changes: self.co_changes.deep_view(),
            ownership: self.ownership.deep_view(),
        }
    }
}

/// What a [`GitExplainError`] stands for.
#[verifier::ext_equal]
pub enum GitExplainErrorView {
    History(GitHistoryErrorView),
    BareRepository,
    EmptyPath,
    PathOutsideRepository,
    UnsupportedPathEncoding,
    AmbiguousPath { first: Seq<char>, second: Seq<char> },
}

impl DeepView for GitExplainError {
    type V = GitExplainErrorView;

    open spec fn deep_view(&self) -> GitExplainErrorView {
        match self {
            GitExplainError::History(inner) => GitExplainErrorView::History(inner.deep_view()),
            GitExplainError::BareRepository => GitExplainErrorView::BareRepository,
            GitExplainError::EmptyPath => GitExplainErrorView::EmptyPath,
            GitExplainError::PathOutsideRepository => GitExplainErrorView::PathOutsideRepository,
            GitExplainError::UnsupportedPathEncoding => GitExplainErrorView::UnsupportedPathEncoding,
            GitExplainError::AmbiguousPath { first, second } => GitExplainErrorView::AmbiguousPath { first: first@, second: second@ },
        }
    }
}

} // verus!
