//! How two commits differ: ranges, changed files and totals.

pub mod committed;
pub mod laws;
pub mod ranges;
pub mod risk;

use vstd::prelude::*;

use crate::order;
use crate::order::{KeyPart, Ordered};
use crate::text;

verus! {

pub const DIFF_SCHEMA_VERSION: &'static str = "hotpath.diff.v1";

/// How two commits differ.
#[derive(Debug, Clone, PartialEq, Eq)]
pub struct DiffReport {
    pub schema_version: &'static str,
    pub range: DiffRangeMetadata,
    pub summary: DiffSummary,
    pub changed_files: Vec<DiffChangedFile>,
    pub architecture: DiffArchitectureStatus,
}

/// The range that was asked for, and the commits that it means.
#[derive(Debug, Clone, PartialEq, Eq)]
pub struct DiffRangeMetadata {
    pub requested: String,
    pub base_ref: String,
    pub head_ref: String,
    pub base_commit_id: String,
    pub head_commit_id: String,
    pub merge_base_commit_id: String,
}

/// The totals of a diff.
#[derive(Debug, Clone, Copy, PartialEq, Eq, Structural)]
pub struct DiffSummary {
    pub changed_files: u64,
    pub added_lines: u64,
    pub deleted_lines: u64,
    pub context_token_delta: i64,
}

/// A file that changed.
#[derive(Debug, Clone, PartialEq, Eq)]
pub struct DiffChangedFile {
    pub path: String,
    pub change_kind: DiffChangeKind,
    pub old_path: Option<String>,
    pub new_path: Option<String>,
    pub added_lines: u64,
    pub deleted_lines: u64,
    pub context_token_delta: i64,
    pub skipped_context: Vec<DiffContextSkip>,
}

/// How a file changed.
#[derive(Debug, Clone, Copy, PartialEq, Eq, Structural)]
pub enum DiffChangeKind {
    Added,
    Modified,
    Deleted,
    Renamed,
    Copied,
    TypeChanged,
}

/// A side of a change whose tokens are not counted.
#[derive(Debug, Clone, Copy, PartialEq, Eq, Structural)]
pub struct DiffContextSkip {
    pub side: DiffContextSide,
    pub reason: DiffContextSkipReason,
}

/// A side of a change.
#[derive(Debug, Clone, Copy, PartialEq, Eq, Structural)]
pub enum DiffContextSide {
    Old,
    New,
}

/// Why the tokens of a side are not counted.
#[derive(Debug, Clone, Copy, PartialEq, Eq, Structural)]
pub enum DiffContextSkipReason {
    Binary,
    InvalidUtf8,
}

/// What is known of the architecture.
#[derive(Debug, Clone, Copy, PartialEq, Eq, Structural)]
pub enum DiffArchitectureStatus {
    NotEvaluated,
}

/// A range of commits: from where two histories part, to the head.
#[derive(Debug, Clone, PartialEq, Eq)]
pub struct DiffRangeSpec {
    pub requested: String,
    pub base_ref: String,
    pub head_ref: String,
}

/// Why a text is not a range.
#[derive(Debug, Clone, Copy, PartialEq, Eq, Structural)]
pub enum DiffRangeParseError {
    MissingTripleDot,
    MultipleTripleDot,
    TwoDotRange,
    EmptyBase,
    EmptyHead,
}

/// Why a diff cannot be analyzed; what Git says of it is kept in words.
#[derive(Debug, Clone, PartialEq, Eq)]
pub enum DiffError {
    InvalidRange(DiffRangeParseError),
    NotRepository { path: String, message: String },
    OpenRepository { path: String, message: String },
    MissingHead { path: String },
    ShallowRepository { path: String },
    BareRepository { path: String },
    HeadNotCommit { path: String, message: String },
    ResolvedHeadNotCurrentHead { requested_head: String, resolved_head_commit_id: String, current_head_commit_id: String },
    UnsupportedPathEncoding { commit_id: String },
    Git { context: &'static str, message: String },
}

/// What Git says became of a file.
#[derive(Debug, Clone, Copy, PartialEq, Eq, Structural)]
pub enum DeltaStatus {
    Unmodified,
    Added,
    Deleted,
    Modified,
    Renamed,
    Copied,
    Ignored,
    Untracked,
    Typechange,
    Unreadable,
    Conflicted,
}

/// The path of one side of a change.
#[derive(Debug, Clone, PartialEq, Eq)]
pub enum DeltaPath {
    Absent,
    NotUtf8,
    Text(String),
}

/// The content of one side of a change.
#[derive(Debug, Clone, PartialEq, Eq)]
pub enum DeltaContent {
    NotLoaded { message: String },
    Binary,
    Bytes(Vec<u8>),
}

/// One side of a change.
#[derive(Debug, Clone, PartialEq, Eq)]
pub struct DeltaFile {
    pub present: bool,
    pub path: DeltaPath,
    pub content: DeltaContent,
}

/// The lines that a change adds and deletes.
#[derive(Debug, Clone, PartialEq, Eq)]
pub enum DeltaLines {
    PatchFailed { message: String },
    CountFailed { message: String },
    Counted { added: u64, deleted: u64 },
}

/// A change as Git tells it.
#[derive(Debug, Clone, PartialEq, Eq)]
pub struct FileDelta {
    pub status: DeltaStatus,
    pub old: DeltaFile,
    pub new: DeltaFile,
    pub lines: DeltaLines,
}

/// The commits that a range means.
#[derive(Debug, Clone, PartialEq, Eq)]
pub struct DiffCommits {
    pub base: String,
    pub head: String,
    pub merge_base: String,
}

impl DeepView for DiffSummary {
    type V = DiffSummary;

    open spec fn deep_view(&self) -> DiffSummary {
        *self
    }
}

impl DeepView for DiffChangeKind {
    type V = DiffChangeKind;

    open spec fn deep_view(&self) -> DiffChangeKind {
        *self
    }
}

impl DeepView for DiffContextSkip {
    type V = DiffContextSkip;

    open spec fn deep_view(&self) -> DiffContextSkip {
        *self
    }
}

impl DeepView for DiffArchitectureStatus {
    type V = DiffArchitectureStatus;

    open spec fn deep_view(&self) -> DiffArchitectureStatus {
        *self
    }
}

impl DeepView for DiffRangeParseError {
    type V = DiffRangeParseError;

    open spec fn deep_view(&self) -> DiffRangeParseError {
        *self
    }
}

/// What a [`DiffRangeMetadata`] stands for.
#[verifier::ext_equal]
pub struct DiffRangeMetadataView {
    pub requested: Seq<char>,
    pub base_ref: Seq<char>,
    pub head_ref: Seq<char>,
    pub base_commit_id: Seq<char>,
    pub head_commit_id: Seq<char>,
    pub merge_base_commit_id: Seq<char>,
}

impl DeepView for DiffRangeMetadata {
    type V = DiffRangeMetadataView;

    open spec fn deep_view(&self) -> DiffRangeMetadataView {
        DiffRangeMetadataView {
            requested: self.requested@,
            base_ref: self.base_ref@,
            head_ref: self.head_ref@,
            base_commit_id: self.base_commit_id@,
            head_commit_id: self.head_commit_id@,
            merge_base_commit_id: self.merge_base_commit_id@,
        }
    }
}

/// What a [`DiffChangedFile`] stands for.
#[verifier::ext_equal]
pub struct DiffChangedFileView {
    pub path: Seq<char>,
    pub change_kind: DiffChangeKind,
    pub old_path: Option<Seq<char>>,
    pub new_path: Option<Seq<char>>,
    pub added_lines: u64,
    pub deleted_lines: u64,
    pub context_token_delta: i64,
    pub skipped_context: Seq<DiffContextSkip>,
}

impl DeepView for DiffChangedFile {
    type V = DiffChangedFileView;

    open spec fn deep_view(&self) -> DiffChangedFileView {
        DiffChangedFileView {
            path: self.path@,
            change_kind: self.change_kind,
            old_path: self.old_path.deep_view(),
            new_path: self.new_path.deep_view(),
            added_lines: self.added_lines,
            deleted_lines: self.deleted_lines,
            context_token_delta: self.context_token_delta,
            skipped_context: self.skipped_context.deep_view(),
        }
    }
}

/// What a [`DiffReport`] stands for.
#[verifier::ext_equal]
pub struct DiffReportView {
    pub schema_version: Seq<char>,
    pub range: DiffRangeMetadataView,
    pub summary: DiffSummary,
    pub changed_files: Seq<DiffChangedFileView>,
    pub architecture: DiffArchitectureStatus,
}

impl DeepView for DiffReport {
    type V = DiffReportView;

    open spec fn deep_view(&self) -> DiffReportView {
        DiffReportView {
            schema_version: self.schema_version@,
            range: self.range.deep_view(),
            summary: self.summary,
            changed_files: self.changed_files.deep_view(),
            architecture: self.architecture,
        }
    }
}

/// What a [`DiffRangeSpec`] stands for.
#[verifier::ext_equal]
pub struct DiffRangeSpecView {
    pub requested: Seq<char>,
    pub base_ref: Seq<char>,
    pub head_ref: Seq<char>,
}

impl DeepView for DiffRangeSpec {
    type V = DiffRangeSpecView;

    open spec fn deep_view(&self) -> DiffRangeSpecView {
        DiffRangeSpecView {
            requested: self.requested@,
            base_ref: self.base_ref@,
            head_ref: self.head_ref@,
        }
    }
}

/// What a [`DeltaFile`] stands for.
#[verifier::ext_equal]
pub struct DeltaFileView {
    pub present: bool,
    pub path: DeltaPathView,
    pub content: DeltaContentView,
}

impl DeepView for DeltaFile {
    type V = DeltaFileView;

    open spec fn deep_view(&self) -> DeltaFileView {
        DeltaFileView {
            present: self.present,
            path: self.path.deep_view(),
            content: self.content.deep_view(),
        }
    }
}

/// What a [`FileDelta`] stands for.
#[verifier::ext_equal]
pub struct FileDeltaView {
    pub status: DeltaStatus,
    pub old: DeltaFileView,
    pub new: DeltaFileView,
    pub lines: DeltaLinesView,
}

impl DeepView for FileDelta {
    type V = FileDeltaView;

    open spec fn deep_view(&self) -> FileDeltaView {
        FileDeltaView {
            status: self.status,
            old: self.old.deep_view(),
            new: self.new.deep_view(),
            lines: self.lines.deep_view(),
        }
    }
}

/// What a [`DiffCommits`] stands for.
#[verifier::ext_equal]
pub struct DiffCommitsView {
    pub base: Seq<char>,
    pub head: Seq<char>,
    pub merge_base: Seq<char>,
}

impl DeepView for DiffCommits {
    type V = DiffCommitsView;

    open spec fn deep_view(&self) -> DiffCommitsView {
        DiffCommitsView {
            base: self.base@,
            head: self.head@,
            merge_base: self.merge_base@,
        }
    }
}

/// What a [`DiffError`] stands for.
#[verifier::ext_equal]
pub enum DiffErrorView {
    InvalidRange(DiffRangeParseError),
    NotRepository { path: Seq<char>, message: Seq<char> },
    OpenRepository { path: Seq<char>, message: Seq<char> },
    MissingHead { path: Seq<char> },
    ShallowRepository { path: Seq<char> },
    BareRepository { path: Seq<char> },
    HeadNotCommit { path: Seq<char>, message: Seq<char> },
    ResolvedHeadNotCurrentHead { requested_head: Seq<char>, resolved_head_commit_id: Seq<char>, current_head_commit_id: Seq<char> },
    UnsupportedPathEncoding { commit_id: Seq<char> },
    Git { context: Seq<char>, message: Seq<char> },
}

impl DeepView for DiffError {
    type V = DiffErrorView;

    open spec fn deep_view(&self) -> DiffErrorView {
        match self {
            DiffError::InvalidRange(inner) => DiffErrorView::InvalidRange(*inner),
            DiffError::NotRepository { path, message } => DiffErrorView::NotRepository { path: path@, message: message@ },
            DiffError::OpenRepository { path, message } => DiffErrorView::OpenRepository { path: path@, message: message@ },
            DiffError::MissingHead { path } => DiffErrorView::MissingHead { path: path@ },
            DiffError::ShallowRepository { path } => DiffErrorView::ShallowRepository { path: path@ },
            DiffError::BareRepository { path } => DiffErrorView::BareRepository { path: path@ },
            DiffError::HeadNotCommit { path, message } => DiffErrorView::HeadNotCommit { path: path@, message: message@ },
            DiffError::ResolvedHeadNotCurrentHead { requested_head, resolved_head_commit_id, current_head_commit_id } => DiffErrorView::ResolvedHeadNotCurrentHead { requested_head: requested_head@, resolved_head_commit_id: resolved_head_commit_id@, current_head_commit_id: current_head_commit_id@ },
            DiffError::UnsupportedPathEncoding { commit_id } => DiffErrorView::UnsupportedPathEncoding { commit_id: commit_id@ },
            DiffError::Git { context, message } => DiffErrorView::Git { context: context@, message: message@ },
        }
    }
}

/// What a [`DeltaPath`] stands for.
#[verifier::ext_equal]
pub enum DeltaPathView {
    Absent,
    NotUtf8,
    Text(Seq<char>),
}

impl DeepView for DeltaPath {
    type V = DeltaPathView;

    open spec fn deep_view(&self) -> DeltaPathView {
        match self {
            DeltaPath::Absent => DeltaPathView::Absent,
            DeltaPath::NotUtf8 => DeltaPathView::NotUtf8,
            DeltaPath::Text(inner) => DeltaPathView::Text(inner@),
        }
    }
}

/// What a [`DeltaContent`] stands for.
#[verifier::ext_equal]
pub enum DeltaContentView {
    NotLoaded { message: Seq<char> },
    Binary,
    Bytes(Seq<u8>),
}

impl DeepView for DeltaContent {
    type V = DeltaContentView;

    open spec fn deep_view(&self) -> DeltaContentView {
        match self {
            DeltaContent::NotLoaded { message } => DeltaContentView::NotLoaded { message: message@ },
            DeltaContent::Binary => DeltaContentView::Binary,
            DeltaContent::Bytes(inner) => DeltaContentView::Bytes(inner.deep_view()),
        }
    }
}

/// What a [`DeltaLines`] stands for.
#[verifier::ext_equal]
pub enum DeltaLinesView {
    PatchFailed { message: Seq<char> },
    CountFailed { message: Seq<char> },
    Counted { added: u64, deleted: u64 },
}

impl DeepView for DeltaLines {
    type V = DeltaLinesView;

    open spec fn deep_view(&self) -> DeltaLinesView {
        match self {
            DeltaLines::PatchFailed { message } => DeltaLinesView::PatchFailed { message: message@ },
            DeltaLines::CountFailed { message } => DeltaLinesView::CountFailed { message: message@ },
            DeltaLines::Counted { added, deleted } => DeltaLinesView::Counted { added: *added, deleted: *deleted },
        }
    }
}

/// The place of a kind of change among the kinds.
pub open spec fn change_rank(kind: DiffChangeKind) -> int {
    match kind {
        DiffChangeKind::Added => 0,
        DiffChangeKind::Modified => 1,
        DiffChangeKind::Deleted => 2,
        DiffChangeKind::Renamed => 3,
        DiffChangeKind::Copied => 4,
        DiffChangeKind::TypeChanged => 5,
    }
}

fn change_rank_of(kind: DiffChangeKind) -> (n: u8)
    ensures
        n == change_rank(kind),
{
    match kind {
        DiffChangeKind::Added => 0,
        DiffChangeKind::Modified => 1,
        DiffChangeKind::Deleted => 2,
        DiffChangeKind::Renamed => 3,
        DiffChangeKind::Copied => 4,
        DiffChangeKind::TypeChanged => 5,
    }
}

impl Ordered for DiffChangedFile {
    /// Files are ordered by path, kind of change, lines and tokens.
    open spec fn key(v: DiffChangedFileView) -> Seq<KeyPart> {
        seq![
            KeyPart::Text(v.path),
            KeyPart::Number(change_rank(v.change_kind) as int),
            KeyPart::Number(v.added_lines as int),
            KeyPart::Number(v.deleted_lines as int),
            KeyPart::Number(v.context_token_delta as int),
        ]
    }

    fn comes_before(&self, other: &Self) -> (r: bool) {
        proof {
            reveal_with_fuel(order::key_lt_from, 6);
        }
        if text::precedes(self.path.as_str(), other.path.as_str()) {
            return true;
        }
        if text::precedes(other.path.as_str(), self.path.as_str()) {
            return false;
        }
        if change_rank_of(self.change_kind) < change_rank_of(other.change_kind) {
            return true;
        }
        if change_rank_of(other.change_kind) < change_rank_of(self.change_kind) {
            return false;
        }
        if self.added_lines < other.added_lines {
            return true;
        }
        if other.added_lines < self.added_lines {
            return false;
        }
        if self.deleted_lines < other.deleted_lines {
            return true;
        }
        if other.deleted_lines < self.deleted_lines {
            return false;
        }
        self.context_token_delta < other.context_token_delta
    }
}

impl DiffRangeParseError {
    /// The error in words.
    pub open spec fn words(self) -> Seq<char> {
        match self {
            DiffRangeParseError::MissingTripleDot => "diff range must use exactly one triple-dot separator"@,
            DiffRangeParseError::MultipleTripleDot => "diff range must not contain more than one triple-dot separator"@,
            DiffRangeParseError::TwoDotRange => "diff range must use base...head syntax; two-dot ranges are not supported"@,
            DiffRangeParseError::EmptyBase => "diff range base ref must not be empty"@,
            DiffRangeParseError::EmptyHead => "diff range head ref must not be empty"@,
        }
    }

    /// The error in words.
    pub fn message(self) -> (out: &'static str)
        ensures
            out@ == self.words(),
    {
        match self {
            DiffRangeParseError::MissingTripleDot => "diff range must use exactly one triple-dot separator",
            DiffRangeParseError::MultipleTripleDot => "diff range must not contain more than one triple-dot separator",
            DiffRangeParseError::TwoDotRange => "diff range must use base...head syntax; two-dot ranges are not supported",
            DiffRangeParseError::EmptyBase => "diff range base ref must not be empty",
            DiffRangeParseError::EmptyHead => "diff range head ref must not be empty",
        }
    }
}

impl DiffErrorView {
    /// The error in words.
    pub open spec fn words(self) -> Seq<char> {
        match self {
            DiffErrorView::InvalidRange(fault) => fault.words(),
            DiffErrorView::NotRepository { .. } => "path is not a readable Git worktree; run diff analysis from inside a repository with local history"@,
            DiffErrorView::OpenRepository { .. } => "failed to open Git repository from the current worktree; ensure local Git metadata is readable"@,
            DiffErrorView::MissingHead { .. } => "Git repository does not have a commit at HEAD; create an initial commit before analyzing a diff"@,
            DiffErrorView::ShallowRepository { .. } => "Git repository has shallow history; fetch complete local history before running diff analysis so metrics are not based on incomplete commits"@,
            DiffErrorView::BareRepository { .. } => "Git repository has no worktree; diff analysis requires a local worktree"@,
            DiffErrorView::HeadNotCommit { message, .. } => "Git HEAD does not resolve to a commit: "@
                + message,
            DiffErrorView::ResolvedHeadNotCurrentHead {
                requested_head,
                resolved_head_commit_id,
                current_head_commit_id,
            } => "diff range head '"@ + requested_head + "' resolves to commit "@
                + resolved_head_commit_id + ", but current HEAD is "@ + current_head_commit_id
                + "; check out the requested head before analyzing the diff"@,
            DiffErrorView::UnsupportedPathEncoding { commit_id } => "commit "@ + commit_id
                + " changed a path that is not valid UTF-8"@,
            DiffErrorView::Git { context, message } => "failed to analyze Git diff while "@ + context
                + ": "@ + message,
        }
    }
}

impl DiffError {
    /// The error in words.
    pub fn message(&self) -> (out: String)
        ensures
            out@ == self.deep_view().words(),
    {
        match self {
            DiffError::InvalidRange(fault) => fault.message().to_string(),
            DiffError::NotRepository { .. } => "path is not a readable Git worktree; run diff analysis from inside a repository with local history".to_string(),
            DiffError::OpenRepository { .. } => "failed to open Git repository from the current worktree; ensure local Git metadata is readable".to_string(),
            DiffError::MissingHead { .. } => "Git repository does not have a commit at HEAD; create an initial commit before analyzing a diff".to_string(),
            DiffError::ShallowRepository { .. } => "Git repository has shallow history; fetch complete local history before running diff analysis so metrics are not based on incomplete commits".to_string(),
            DiffError::BareRepository { .. } => "Git repository has no worktree; diff analysis requires a local worktree".to_string(),
            DiffError::HeadNotCommit { message, .. } => {
                let mut out = "Git HEAD does not resolve to a commit: ".to_string();
                out.append(message.as_str());
                out
            },
            DiffError::ResolvedHeadNotCurrentHead {
                requested_head,
                resolved_head_commit_id,
                current_head_commit_id,
            } => {
                let mut out = "diff range head '".to_string();
                out.append(requested_head.as_str());
                out.append("' resolves to commit ");
                out.append(resolved_head_commit_id.as_str());
                out.append(", but current HEAD is ");
                out.append(current_head_commit_id.as_str());
                out.append("; check out the requested head before analyzing the diff");
                out
            },
            DiffError::UnsupportedPathEncoding { commit_id } => {
                let mut out = "commit ".to_string();
                out.append(commit_id.as_str());
                out.append(" changed a path that is not valid UTF-8");
                out
            },
            DiffError::Git { context, message } => {
                let mut out = "failed to analyze Git diff while ".to_string();
                out.append(context);
                out.append(": ");
                out.append(message.as_str());
                out
            },
        }
    }
}

impl vstd::std_specs::convert::FromSpecImpl<DiffRangeParseError> for DiffError {
    open spec fn obeys_from_spec() -> bool {
        true
    }

    open spec fn from_spec(fault: DiffRangeParseError) -> DiffError {
        DiffError::InvalidRange(fault)
    }
}

impl From<DiffRangeParseError> for DiffError {
    fn from(fault: DiffRangeParseError) -> (out: DiffError) {
        DiffError::InvalidRange(fault)
    }
}

/// The range that a text means, or why it means none.
pub open spec fn parsed_range(range: Seq<char>) -> Result<DiffRangeSpecView, DiffRangeParseError> {
    let pieces = text::split_parts(range, "..."@);
    let base = text::trimmed(pieces[0]);
    let head = text::trimmed(pieces[1]);
    if pieces.len() < 2 {
        if text::holds_part(range, ".."@) {
            Err(DiffRangeParseError::TwoDotRange)
        } else {
            Err(DiffRangeParseError::MissingTripleDot)
        }
    } else if pieces.len() > 2 {
        Err(DiffRangeParseError::MultipleTripleDot)
    } else if base.len() == 0 {
        Err(DiffRangeParseError::EmptyBase)
    } else if head.len() == 0 {
        Err(DiffRangeParseError::EmptyHead)
    } else if text::holds_part(base, ".."@) || text::holds_part(head, ".."@)
        || text::finishes_with(base, "."@) || text::begins_with(head, "."@) {
        Err(DiffRangeParseError::TwoDotRange)
    } else {
        Ok(DiffRangeSpecView { requested: range, base_ref: base, head_ref: head })
    }
}

/// The range that a text means, or why it means none.
pub fn parse_diff_range(range: &str) -> (out: Result<DiffRangeSpec, DiffRangeParseError>)
    ensures
        match out {
            Ok(spec) => parsed_range(range@) == Ok::<DiffRangeSpecView, DiffRangeParseError>(
                spec.deep_view(),
            ),
            Err(fault) => parsed_range(range@) == Err::<DiffRangeSpecView, DiffRangeParseError>(
                fault,
            ),
        },
{
    proof {
        reveal_strlit("...");
    }
    let pieces = text::split_str(range, "...");
    let ghost all = pieces.deep_view();
    if pieces.len() < 2 {
        return if text::contains(range, "..") {
            Err(DiffRangeParseError::TwoDotRange)
        } else {
            Err(DiffRangeParseError::MissingTripleDot)
        };
    }
    if pieces.len() > 2 {
        return Err(DiffRangeParseError::MultipleTripleDot);
    }
    assert(all[0] == pieces@[0]@ && all[1] == pieces@[1]@);
    let base = text::trim(pieces[0].as_str());
    let head = text::trim(pieces[1].as_str());
    if base.as_str().is_empty() {
        return Err(DiffRangeParseError::EmptyBase);
    }
    if head.as_str().is_empty() {
        return Err(DiffRangeParseError::EmptyHead);
    }
    if text::contains(base.as_str(), "..") || text::contains(head.as_str(), "..")
        || text::ends_with(base.as_str(), ".") || text::starts_with(head.as_str(), ".") {
        return Err(DiffRangeParseError::TwoDotRange);
    }
    Ok(DiffRangeSpec { requested: range.to_string(), base_ref: base, head_ref: head })
}

/// Why a repository cannot be opened: there is none, or it cannot be read.
pub fn open_failure(missing: bool, path: &str, message: &str) -> (out: DiffError)
    ensures
        out.deep_view() == (if missing {
            DiffErrorView::NotRepository { path: path@, message: message@ }
        } else {
            DiffErrorView::OpenRepository { path: path@, message: message@ }
        }),
{
    let path = path.to_string();
    let message = message.to_string();
    if missing {
        DiffError::NotRepository { path, message }
    } else {
        DiffError::OpenRepository { path, message }
    }
}

/// Rejects a repository without its whole history or without a worktree.
pub fn accept_repository(shallow: bool, bare: bool, path: &str) -> (out: Result<(), DiffError>)
    ensures
        match out {
            Ok(_) => !shallow && !bare,
            Err(fault) => fault.deep_view() == (if shallow {
                DiffErrorView::ShallowRepository { path: path@ }
            } else {
                DiffErrorView::BareRepository { path: path@ }
            }) && (shallow || bare),
        },
{
    if shallow {
        Err(DiffError::ShallowRepository { path: path.to_string() })
    } else if bare {
        Err(DiffError::BareRepository { path: path.to_string() })
    } else {
        Ok(())
    }
}

/// Why the head cannot be read: there is no commit yet, or Git fails.
pub fn head_failure(unborn: bool, path: &str, message: &str) -> (out: DiffError)
    ensures
        out.deep_view() == (if unborn {
            DiffErrorView::MissingHead { path: path@ }
        } else {
            DiffErrorView::Git { context: "reading HEAD"@, message: message@ }
        }),
{
    if unborn {
        DiffError::MissingHead { path: path.to_string() }
    } else {
        DiffError::Git { context: "reading HEAD", message: message.to_string() }
    }
}

/// Rejects a range whose head is not checked out.
pub fn accept_head(range: &DiffRangeSpec, resolved: &str, current: &str) -> (out: Result<
    (),
    DiffError,
>)
    ensures
        match out {
            Ok(_) => resolved@ == current@,
            Err(fault) => fault.deep_view() == (DiffErrorView::ResolvedHeadNotCurrentHead {
                requested_head: range.deep_view().head_ref,
                resolved_head_commit_id: resolved@,
                current_head_commit_id: current@,
            }) && resolved@ != current@,
        },
{
    if text::same(resolved, current) {
        Ok(())
    } else {
        Err(
            DiffError::ResolvedHeadNotCurrentHead {
                requested_head: range.head_ref.clone(),
                resolved_head_commit_id: resolved.to_string(),
                current_head_commit_id: current.to_string(),
            },
        )
    }
}

/// How a file changed, where it did.
pub open spec fn kind_of(status: DeltaStatus) -> Option<DiffChangeKind> {
    match status {
        DeltaStatus::Added => Some(DiffChangeKind::Added),
        DeltaStatus::Modified => Some(DiffChangeKind::Modified),
        DeltaStatus::Deleted => Some(DiffChangeKind::Deleted),
        DeltaStatus::Renamed => Some(DiffChangeKind::Renamed),
        DeltaStatus::Copied => Some(DiffChangeKind::Copied),
        DeltaStatus::Typechange => Some(DiffChangeKind::TypeChanged),
        _ => None,
    }
}

/// How a file changed, where it did.
pub fn change_kind(status: DeltaStatus) -> (out: Option<DiffChangeKind>)
    ensures
        out == kind_of(status),
{
    match status {
        DeltaStatus::Added => Some(DiffChangeKind::Added),
        DeltaStatus::Modified => Some(DiffChangeKind::Modified),
        DeltaStatus::Deleted => Some(DiffChangeKind::Deleted),
        DeltaStatus::Renamed => Some(DiffChangeKind::Renamed),
        DeltaStatus::Copied => Some(DiffChangeKind::Copied),
        DeltaStatus::Typechange => Some(DiffChangeKind::TypeChanged),
        _ => None,
    }
}

/// The number of tokens of so many bytes.
pub open spec fn tokens(bytes: nat) -> int {
    (bytes + 3) as int / 4
}

fn estimate_tokens(byte_len: usize) -> (n: i64)
    ensures
        n == tokens(byte_len as nat),
        0 <= n <= 0x4000_0000_0000_0000,
{
    let quarter: usize = byte_len / 4;
    if byte_len % 4 == 0 {
        quarter as i64
    } else {
        (quarter + 1) as i64
    }
}

/// The path of one side of a change, unless it is not UTF-8.
pub open spec fn side_path(file: DeltaFileView) -> Result<Option<Seq<char>>, ()> {
    if !file.present {
        Ok(None)
    } else {
        match file.path {
            DeltaPathView::Absent => Ok(None),
            DeltaPathView::NotUtf8 => Err(()),
            DeltaPathView::Text(path) => Ok(Some(text::replaced(path, '\\', '/'))),
        }
    }
}

fn path_for_delta_file(file: &DeltaFile) -> (out: Result<Option<String>, ()>)
    ensures
        match out {
            Ok(path) => side_path(file.deep_view()) == Ok::<Option<Seq<char>>, ()>(
                path.deep_view(),
            ),
            Err(_) => side_path(file.deep_view()) is Err,
        },
{
    if !file.present {
        return Ok(None);
    }
    match &file.path {
        DeltaPath::Absent => Ok(None),
        DeltaPath::NotUtf8 => Err(()),
        DeltaPath::Text(path) => Ok(Some(text::replace_char(path.as_str(), '\\', '/'))),
    }
}

/// The tokens of one side of a change, or why they are not counted.
#[derive(Debug, Clone, PartialEq, Eq)]
pub enum SideTokens {
    Absent,
    Skipped(DiffContextSkipReason),
    Counted(i64),
    NotLoaded { message: String },
}

/// What [`SideTokens`] stand for.
#[verifier::ext_equal]
pub enum SideTokensView {
    Absent,
    Skipped(DiffContextSkipReason),
    Counted(int),
    NotLoaded { message: Seq<char> },
}

impl DeepView for SideTokens {
    type V = SideTokensView;

    open spec fn deep_view(&self) -> SideTokensView {
        match self {
            SideTokens::Absent => SideTokensView::Absent,
            SideTokens::Skipped(reason) => SideTokensView::Skipped(*reason),
            SideTokens::Counted(n) => SideTokensView::Counted(*n as int),
            SideTokens::NotLoaded { message } => SideTokensView::NotLoaded { message: message@ },
        }
    }
}

/// The tokens of one side of a change: of text only.
pub open spec fn side_tokens(file: DeltaFileView) -> SideTokensView {
    if !file.present {
        SideTokensView::Absent
    } else {
        match file.content {
            DeltaContentView::NotLoaded { message } => SideTokensView::NotLoaded { message },
            DeltaContentView::Binary => SideTokensView::Skipped(DiffContextSkipReason::Binary),
            DeltaContentView::Bytes(bytes) => if vstd::utf8::valid_utf8(bytes) {
                SideTokensView::Counted(tokens(bytes.len()))
            } else {
                SideTokensView::Skipped(DiffContextSkipReason::InvalidUtf8)
            },
        }
    }
}

fn tokens_for_side(file: &DeltaFile) -> (out: SideTokens)
    ensures
        out.deep_view() == side_tokens(file.deep_view()),
        out matches SideTokens::Counted(n) ==> 0 <= n <= 0x4000_0000_0000_0000,
{
    if !file.present {
        return SideTokens::Absent;
    }
    match &file.content {
        DeltaContent::NotLoaded { message } => SideTokens::NotLoaded { message: message.clone() },
        DeltaContent::Binary => SideTokens::Skipped(DiffContextSkipReason::Binary),
        DeltaContent::Bytes(bytes) => {
            assert(bytes.deep_view() =~= bytes@);
            if text::decode(bytes.as_slice()).is_err() {
                SideTokens::Skipped(DiffContextSkipReason::InvalidUtf8)
            } else {
                SideTokens::Counted(estimate_tokens(bytes.len()))
            }
        },
    }
}

/// The number of tokens that are counted.
pub open spec fn counted(side: SideTokensView) -> int {
    match side {
        SideTokensView::Counted(n) => n,
        _ => 0,
    }
}

/// What is not counted of a side.
pub open spec fn skip_of(side: DiffContextSide, result: SideTokensView) -> Seq<DiffContextSkip> {
    match result {
        SideTokensView::Skipped(reason) => seq![DiffContextSkip { side, reason }],
        _ => Seq::empty(),
    }
}

/// The changed file that a change gives, where it gives one.
pub open spec fn changed_file(delta: FileDeltaView, commit_id: Seq<char>) -> Result<
    Option<DiffChangedFileView>,
    DiffErrorView,
> {
    let encoding = DiffErrorView::UnsupportedPathEncoding { commit_id };
    match kind_of(delta.status) {
        None => Ok(None),
        Some(change_kind) => match (side_path(delta.old), side_path(delta.new)) {
            (Ok(old_path), Ok(new_path)) => {
                let path = if change_kind == DiffChangeKind::Deleted {
                    old_path
                } else {
                    new_path
                };
                match path {
                    None => Err(encoding),
                    Some(path) => match delta.lines {
                        DeltaLinesView::PatchFailed { message } => Err(
                            DiffErrorView::Git { context: "loading a file diff patch"@, message },
                        ),
                        DeltaLinesView::CountFailed { message } => Err(
                            DiffErrorView::Git { context: "counting changed lines"@, message },
                        ),
                        DeltaLinesView::Counted { added, deleted } => changed_with_lines(
                            delta,
                            path,
                            change_kind,
                            old_path,
                            new_path,
                            added,
                            deleted,
                        ),
                    },
                }
            },
            _ => Err(encoding),
        },
    }
}

/// The changed file that a change gives whose lines are counted.
pub open spec fn changed_with_lines(
    delta: FileDeltaView,
    path: Seq<char>,
    change_kind: DiffChangeKind,
    old_path: Option<Seq<char>>,
    new_path: Option<Seq<char>>,
    added_lines: u64,
    deleted_lines: u64,
) -> Result<Option<DiffChangedFileView>, DiffErrorView> {
    let context = "loading a blob for context estimation"@;
    let old = side_tokens(delta.old);
    let new = side_tokens(delta.new);
    match (old, new) {
        (SideTokensView::NotLoaded { message }, _) => Err(DiffErrorView::Git { context, message }),
        (_, SideTokensView::NotLoaded { message }) => Err(DiffErrorView::Git { context, message }),
        _ => Ok(
            Some(
                DiffChangedFileView {
                    path,
                    change_kind,
                    old_path,
                    new_path,
                    added_lines,
                    deleted_lines,
                    context_token_delta: (counted(new) - counted(old)) as i64,
                    skipped_context: skip_of(DiffContextSide::Old, old) + skip_of(
                        DiffContextSide::New,
                        new,
                    ),
                },
            ),
        ),
    }
}

fn context_token_delta(old: &SideTokens, new: &SideTokens) -> (out: (i64, Vec<DiffContextSkip>))
    requires
        old matches SideTokens::Counted(n) ==> 0 <= *n <= 0x4000_0000_0000_0000,
        new matches SideTokens::Counted(n) ==> 0 <= *n <= 0x4000_0000_0000_0000,
    ensures
        out.0 == counted(new.deep_view()) - counted(old.deep_view()),
        out.1.deep_view() == skip_of(DiffContextSide::Old, old.deep_view()) + skip_of(
            DiffContextSide::New,
            new.deep_view(),
        ),
{
    let mut skipped: Vec<DiffContextSkip> = Vec::new();
    let mut old_tokens: i64 = 0;
    let mut new_tokens: i64 = 0;
    match old {
        SideTokens::Counted(n) => {
            old_tokens = *n;
        },
        SideTokens::Skipped(reason) => {
            skipped.push(DiffContextSkip { side: DiffContextSide::Old, reason: *reason });
        },
        _ => {},
    }
    match new {
        SideTokens::Counted(n) => {
            new_tokens = *n;
        },
        SideTokens::Skipped(reason) => {
            skipped.push(DiffContextSkip { side: DiffContextSide::New, reason: *reason });
        },
        _ => {},
    }
    assert(skipped.deep_view() =~= skip_of(DiffContextSide::Old, old.deep_view()) + skip_of(
        DiffContextSide::New,
        new.deep_view(),
    ));
    (new_tokens - old_tokens, skipped)
}

fn clone_path(path: &Option<String>) -> (out: Option<String>)
    ensures
        out.deep_view() == path.deep_view(),
{
    match path {
        Some(path) => Some(path.clone()),
        None => None,
    }
}

/// Whether a result is the one that is expected.
pub open spec fn is_outcome<T: DeepView>(
    out: Result<T, DiffError>,
    expected: Result<T::V, DiffErrorView>,
) -> bool {
    match out {
        Ok(value) => expected == Ok::<T::V, DiffErrorView>(value.deep_view()),
        Err(fault) => expected == Err::<T::V, DiffErrorView>(fault.deep_view()),
    }
}

/// The changed file that a change gives, where it gives one.
pub fn changed_file_from_delta(delta: &FileDelta, commit_id: &str) -> (out: Result<
    Option<DiffChangedFile>,
    DiffError,
>)
    ensures
        is_outcome(out, changed_file(delta.deep_view(), commit_id@)),
{
    let kind = match change_kind(delta.status) {
        Some(kind) => kind,
        None => return Ok(None),
    };
    let old_path = match path_for_delta_file(&delta.old) {
        Ok(path) => path,
        Err(_) => return Err(
            DiffError::UnsupportedPathEncoding { commit_id: commit_id.to_string() },
        ),
    };
    let new_path = match path_for_delta_file(&delta.new) {
        Ok(path) => path,
        Err(_) => return Err(
            DiffError::UnsupportedPathEncoding { commit_id: commit_id.to_string() },
        ),
    };
    let path = if kind == DiffChangeKind::Deleted {
        clone_path(&old_path)
    } else {
        clone_path(&new_path)
    };
    let path = match path {
        Some(path) => path,
        None => return Err(
            DiffError::UnsupportedPathEncoding { commit_id: commit_id.to_string() },
        ),
    };
    let (added_lines, deleted_lines): (u64, u64) = match &delta.lines {
        DeltaLines::PatchFailed { message } => return Err(
            DiffError::Git { context: "loading a file diff patch", message: message.clone() },
        ),
        DeltaLines::CountFailed { message } => return Err(
            DiffError::Git { context: "counting changed lines", message: message.clone() },
        ),
        DeltaLines::Counted { added, deleted } => (*added, *deleted),
    };
    let old = tokens_for_side(&delta.old);
    if let SideTokens::NotLoaded { message } = &old {
        return Err(
            DiffError::Git {
                context: "loading a blob for context estimation",
                message: message.clone(),
            },
        );
    }
    let new = tokens_for_side(&delta.new);
    if let SideTokens::NotLoaded { message } = &new {
        return Err(
            DiffError::Git {
                context: "loading a blob for context estimation",
                message: message.clone(),
            },
        );
    }
    let (token_delta, skipped) = context_token_delta(&old, &new);
    Ok(
        Some(
            DiffChangedFile {
                path,
                change_kind: kind,
                old_path,
                new_path,
                added_lines,
                deleted_lines,
                context_token_delta: token_delta,
                skipped_context: skipped,
            },
        ),
    )
}

/// The changed files of changes, in the order of the changes; or the first fault.
pub open spec fn gathered(deltas: Seq<FileDeltaView>, commit_id: Seq<char>) -> Result<
    Seq<DiffChangedFileView>,
    DiffErrorView,
>
    decreases deltas.len(),
{
    if deltas.len() == 0 {
        Ok(Seq::empty())
    } else {
        match gathered(deltas.drop_last(), commit_id) {
            Err(fault) => Err(fault),
            Ok(files) => match changed_file(deltas.last(), commit_id) {
                Err(fault) => Err(fault),
                Ok(None) => Ok(files),
                Ok(Some(file)) => Ok(files.push(file)),
            },
        }
    }
}

/// The changed files of changes in ascending order; or the first fault.
pub open spec fn changed_files(deltas: Seq<FileDeltaView>, commit_id: Seq<char>) -> Result<
    Seq<DiffChangedFileView>,
    DiffErrorView,
> {
    match gathered(deltas, commit_id) {
        Err(fault) => Err(fault),
        Ok(files) => Ok(order::sorted_by(files, order::by_key::<DiffChangedFile>())),
    }
}

proof fn fault_stays(deltas: Seq<FileDeltaView>, commit_id: Seq<char>, n: int)
    requires
        0 <= n <= deltas.len(),
        gathered(deltas.take(n), commit_id) is Err,
    ensures
        gathered(deltas, commit_id) == gathered(deltas.take(n), commit_id),
    decreases deltas.len() - n,
{
    if n < deltas.len() {
        assert(deltas.take(n + 1).drop_last() =~= deltas.take(n));
        fault_stays(deltas, commit_id, n + 1);
    } else {
        assert(deltas.take(n) =~= deltas);
    }
}

/// The changed files of changes in ascending order; or the first fault.
pub fn changed_files_from_diff(deltas: &Vec<FileDelta>, commit_id: &str) -> (out: Result<
    Vec<DiffChangedFile>,
    DiffError,
>)
    ensures
        is_outcome(out, changed_files(deltas.deep_view(), commit_id@)),
{
    let ghost all = deltas.deep_view();
    let mut files: Vec<DiffChangedFile> = Vec::new();
    let mut i: usize = 0;
    assert(files.deep_view() =~= Seq::<DiffChangedFileView>::empty());
    while i < deltas.len()
        invariant
            i <= deltas.len(),
            all == deltas.deep_view(),
            gathered(all.take(i as int), commit_id@) == Ok::<
                Seq<DiffChangedFileView>,
                DiffErrorView,
            >(files.deep_view()),
        decreases deltas.len() - i,
    {
        assert(all.take(i + 1).drop_last() =~= all.take(i as int));
        assert(all.take(i + 1).last() == deltas@[i as int].deep_view());
        match changed_file_from_delta(&deltas[i], commit_id) {
            Err(fault) => {
                proof {
                    fault_stays(all, commit_id@, i + 1);
                }
                return Err(fault);
            },
            Ok(None) => {},
            Ok(Some(file)) => {
                let ghost before = files.deep_view();
                files.push(file);
                assert(files.deep_view() =~= before.push(file.deep_view()));
            },
        }
        i = i + 1;
    }
    assert(all.take(i as int) =~= all);
    Ok(order::sort(files))
}

/// The lines that files add together.
pub open spec fn added_total(files: Seq<DiffChangedFileView>) -> nat
    decreases files.len(),
{
    if files.len() == 0 {
        0
    } else {
        added_total(files.drop_last()) + files.last().added_lines as nat
    }
}

/// The lines that files delete together.
pub open spec fn deleted_total(files: Seq<DiffChangedFileView>) -> nat
    decreases files.len(),
{
    if files.len() == 0 {
        0
    } else {
        deleted_total(files.drop_last()) + files.last().deleted_lines as nat
    }
}

/// The tokens that files add, less those that they take away.
pub open spec fn token_total(files: Seq<DiffChangedFileView>) -> int
    decreases files.len(),
{
    if files.len() == 0 {
        0
    } else {
        token_total(files.drop_last()) + files.last().context_token_delta
    }
}

/// Whether the totals can be counted, adding up file by file.
pub open spec fn totals_fit(files: Seq<DiffChangedFileView>) -> bool {
    &&& added_total(files) <= u64::MAX
    &&& deleted_total(files) <= u64::MAX
    &&& forall|n: int|
        0 <= n <= files.len() ==> i64::MIN <= #[trigger] token_total(files.take(n)) <= i64::MAX
}

/// The totals of changed files.
pub open spec fn summary_of(files: Seq<DiffChangedFileView>) -> DiffSummary {
    DiffSummary {
        changed_files: files.len() as u64,
        added_lines: added_total(files) as u64,
        deleted_lines: deleted_total(files) as u64,
        context_token_delta: token_total(files) as i64,
    }
}

proof fn totals_grow(files: Seq<DiffChangedFileView>, n: int)
    requires
        0 <= n <= files.len(),
    ensures
        added_total(files.take(n)) <= added_total(files),
        deleted_total(files.take(n)) <= deleted_total(files),
    decreases files.len() - n,
{
    if n < files.len() {
        assert(files.take(n + 1).drop_last() =~= files.take(n));
        totals_grow(files, n + 1);
    } else {
        assert(files.take(n) =~= files);
    }
}

/// The totals of changed files.
pub fn summarize(files: &Vec<DiffChangedFile>) -> (summary: DiffSummary)
    requires
        totals_fit(files.deep_view()),
    ensures
        summary == summary_of(files.deep_view()),
{
    let ghost all = files.deep_view();
    let mut added: u64 = 0;
    let mut deleted: u64 = 0;
    let mut tokens: i64 = 0;
    let mut i: usize = 0;
    while i < files.len()
        invariant
            i <= files.len(),
            all == files.deep_view(),
            totals_fit(all),
            added == added_total(all.take(i as int)),
            deleted == deleted_total(all.take(i as int)),
            tokens == token_total(all.take(i as int)),
        decreases files.len() - i,
    {
        proof {
            assert(all.take(i + 1).drop_last() =~= all.take(i as int));
            assert(all.take(i + 1).last() == files@[i as int].deep_view());
            totals_grow(all, i + 1);
            assert(i64::MIN <= token_total(all.take(i + 1)) <= i64::MAX);
        }
        added = added + files[i].added_lines;
        deleted = deleted + files[i].deleted_lines;
        tokens = tokens + files[i].context_token_delta;
        i = i + 1;
    }
    assert(all.take(i as int) =~= all);
    DiffSummary {
        changed_files: files.len() as u64,
        added_lines: added,
        deleted_lines: deleted,
        context_token_delta: tokens,
    }
}

/// The report on the changes between the commits of a range.
pub fn committed_tree_report(
    range: DiffRangeSpec,
    commits: DiffCommits,
    changed_files: Vec<DiffChangedFile>,
) -> (out: DiffReport)
    requires
        totals_fit(changed_files.deep_view()),
    ensures
        out.deep_view() == (DiffReportView {
            schema_version: DIFF_SCHEMA_VERSION@,
            range: DiffRangeMetadataView {
                requested: range.deep_view().requested,
                base_ref: range.deep_view().base_ref,
                head_ref: range.deep_view().head_ref,
                base_commit_id: commits.deep_view().base,
                head_commit_id: commits.deep_view().head,
                merge_base_commit_id: commits.deep_view().merge_base,
            },
            summary: summary_of(changed_files.deep_view()),
            changed_files: changed_files.deep_view(),
            architecture: DiffArchitectureStatus::NotEvaluated,
        }),
{
    let summary = summarize(&changed_files);
    DiffReport {
        schema_version: DIFF_SCHEMA_VERSION,
        range: DiffRangeMetadata {
            requested: range.requested,
            base_ref: range.base_ref,
            head_ref: range.head_ref,
            base_commit_id: commits.base,
            head_commit_id: commits.head,
            merge_base_commit_id: commits.merge_base,
        },
        summary,
        changed_files,
        architecture: DiffArchitectureStatus::NotEvaluated,
    }
}

/// Whether a text names a side of a range: it is not empty, has no white space around it,
/// and no two dots in a row.
pub open spec fn is_plain_ref(name: Seq<char>) -> bool {
    &&& name.len() > 0
    &&& text::trimmed(name) == name
    &&& !text::holds_part(name, ".."@)
}

proof fn no_dots_no_split(name: Seq<char>, i: int)
    requires
        !text::holds_part(name, ".."@),
        0 <= i,
    ensures
        text::first_part(name, "..."@, i) is None,
    decreases name.len() + 1 - i,
{
    reveal_strlit("...");
    reveal_strlit("..");
    if i + 3 <= name.len() {
        if name.subrange(i, i + 3) == "..."@ {
            assert(name.subrange(i, i + 2) =~= ".."@) by {
                assert(name.subrange(i, i + 3)[0] == '.');
                assert(name.subrange(i, i + 3)[1] == '.');
            }
            assert(text::holds_part(name, ".."@));
        }
        no_dots_no_split(name, i + 1);
    }
}

proof fn dots_come_behind_base(base: Seq<char>, head: Seq<char>, i: int)
    requires
        0 <= i <= base.len(),
        !text::holds_part(base, ".."@),
        !text::finishes_with(base, "."@),
    ensures
        text::first_part(base + "..."@ + head, "..."@, i) == Some(base.len() as int),
    decreases base.len() - i,
{
    reveal_strlit("...");
    reveal_strlit("..");
    reveal_strlit(".");
    let whole = base + "..."@ + head;
    if i == base.len() {
        assert(whole.subrange(i, i + 3) =~= "..."@);
    } else {
        if whole.subrange(i, i + 3) == "..."@ {
            assert(whole.subrange(i, i + 3)[0] == '.');
            assert(whole.subrange(i, i + 3)[1] == '.');
            if i + 2 <= base.len() {
                assert(base.subrange(i, i + 2) =~= ".."@);
                assert(text::holds_part(base, ".."@));
            } else {
                assert(base.skip(base.len() - 1) =~= "."@);
            }
        }
        dots_come_behind_base(base, head, i + 1);
    }
}

/// Two names with three dots between them are the range of these names.
pub proof fn range_of_two_names(base: Seq<char>, head: Seq<char>)
    requires
        is_plain_ref(base),
        is_plain_ref(head),
        !text::finishes_with(base, "."@),
        !text::begins_with(head, "."@),
    ensures
        parsed_range(base + "..."@ + head) == Ok::<DiffRangeSpecView, DiffRangeParseError>(
            DiffRangeSpecView { requested: base + "..."@ + head, base_ref: base, head_ref: head },
        ),
{
    reveal_strlit("...");
    let whole = base + "..."@ + head;
    dots_come_behind_base(base, head, 0);
    no_dots_no_split(head, 0);
    assert(whole.take(base.len() as int) =~= base);
    assert(whole.skip(base.len() + 3int) =~= head);
    reveal_with_fuel(text::split_parts, 2);
    assert(text::split_parts(whole, "..."@) =~= seq![base, head]);
}

} // verus!
