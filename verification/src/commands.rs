//! What goes wrong in commands, in words that show no absolute path of the index.

use vstd::prelude::*;

use crate::diff::{DiffError, DiffErrorView};
use crate::git::errors;
use crate::git::errors::GitHistoryUsage;
use crate::git::{GitExplainError, GitExplainErrorView, GitHistoryError, GitHistoryErrorView};
use crate::numbers;
use crate::paths;
use crate::paths::native;
use crate::paths::native::{NativePath, NativePathView, RequestPlaces, RequestPlacesView};
use crate::paths::{CandidateSelection, CandidateSelectionView, RequestFault};
use crate::scan::{FileRecord, FileRecordView};
use crate::table::TextSet;
use crate::text;

verus! {

/// What is wrong with the index.
#[derive(Debug, Clone, PartialEq, Eq)]
pub enum IndexError {
    CreateIndexDir { path: String, message: String },
    AccessIndex { path: String, message: String },
    OpenDatabase { path: String, message: String },
    CorruptDatabase { path: String, message: String },
    CorruptMetadata { path: String, message: String },
    UnsafeIndexDir { path: String, message: String },
    IncompatibleFutureSchema { path: String, found_version: u64, supported_version: u64 },
    Migration { path: String, from_version: u64, to_version: u64, message: String },
    PersistScan { path: String, message: String },
    PersistGitAnalysis { path: String, message: String },
    PersistSymbols { path: String, message: String },
    PersistHotspots { path: String, message: String },
    ReadIndex { path: String, message: String },
    InvalidScanData { path: String, message: String },
    InvalidGitAnalysisData { path: String, message: String },
    InvalidSymbolData { path: String, message: String },
    InvalidHotspotData { path: String, message: String },
}

/// Why a scan fails.
#[derive(Debug, Clone, PartialEq, Eq)]
pub enum ScanError {
    CurrentDir(String),
    Root { path: String, message: String },
    RootNotDirectory { path: String },
    RelativePath { root: String, path: String },
    Index(IndexError),
    PersistSymbols(IndexError),
    Json(String),
}

/// Why the index cannot be inspected.
#[derive(Debug, Clone, PartialEq, Eq)]
pub enum DoctorError {
    CurrentDir(String),
    Index(String),
}

/// Why the history of a file cannot be explained.
#[derive(Debug, Clone, PartialEq, Eq)]
pub enum ExplainGitCommandError {
    CurrentDir(String),
    Git(GitExplainError),
    Index(String),
}

/// Why hotspots cannot be listed.
#[derive(Debug, Clone, PartialEq, Eq)]
pub enum HotspotsCommandError {
    CurrentDir(String),
    Git(GitHistoryError),
    Scan(ScanError),
    PersistScan(IndexError),
    PersistGitAnalysis(IndexError),
    PersistHotspots(IndexError),
}

/// Why the risk of a diff cannot be told.
#[derive(Debug, Clone, PartialEq, Eq)]
pub enum DiffCommandError {
    CurrentDir(String),
    Diff(DiffError),
    Git(GitHistoryError),
    Scan(ScanError),
    Json(String),
}

/// Why the context cannot be estimated.
#[derive(Debug, Clone, PartialEq, Eq)]
pub enum ContextCommandError {
    CurrentDir(String),
    Scan(ScanError),
    PersistScan(IndexError),
    Json(String),
}

/// Why the score of a file cannot be explained.
#[derive(Debug, Clone, PartialEq, Eq)]
pub enum ExplainCommandError {
    CurrentDir(String),
    Git(GitHistoryError),
    Path(ExplainPathError),
    Scan(ScanError),
    PersistScan(IndexError),
    PersistGitAnalysis(IndexError),
    PersistHotspots(IndexError),
}

/// Why a path names no file that can be explained.
#[derive(Debug, Clone, PartialEq, Eq)]
pub enum ExplainPathError {
    EmptyPath,
    PathOutsideRepository,
    UnsupportedPathEncoding,
    AmbiguousPath { first: String, second: String },
    NotCurrentFile,
}

/// What [`IndexError`] stands for.
#[verifier::ext_equal]
pub enum IndexErrorView {
    CreateIndexDir { path: Seq<char>, message: Seq<char> },
    AccessIndex { path: Seq<char>, message: Seq<char> },
    OpenDatabase { path: Seq<char>, message: Seq<char> },
    CorruptDatabase { path: Seq<char>, message: Seq<char> },
    CorruptMetadata { path: Seq<char>, message: Seq<char> },
    UnsafeIndexDir { path: Seq<char>, message: Seq<char> },
    IncompatibleFutureSchema { path: Seq<char>, found_version: u64, supported_version: u64 },
    Migration { path: Seq<char>, from_version: u64, to_version: u64, message: Seq<char> },
    PersistScan { path: Seq<char>, message: Seq<char> },
    PersistGitAnalysis { path: Seq<char>, message: Seq<char> },
    PersistSymbols { path: Seq<char>, message: Seq<char> },
    PersistHotspots { path: Seq<char>, message: Seq<char> },
    ReadIndex { path: Seq<char>, message: Seq<char> },
    InvalidScanData { path: Seq<char>, message: Seq<char> },
    InvalidGitAnalysisData { path: Seq<char>, message: Seq<char> },
    InvalidSymbolData { path: Seq<char>, message: Seq<char> },
    InvalidHotspotData { path: Seq<char>, message: Seq<char> },
}

impl DeepView for IndexError {
    type V = IndexErrorView;

    open spec fn deep_view(&self) -> IndexErrorView {
        match self {
            IndexError::CreateIndexDir { path, message } => IndexErrorView::CreateIndexDir { path: path@, message: message@ },
            IndexError::AccessIndex { path, message } => IndexErrorView::AccessIndex { path: path@, message: message@ },
            IndexError::OpenDatabase { path, message } => IndexErrorView::OpenDatabase { path: path@, message: message@ },
            IndexError::CorruptDatabase { path, message } => IndexErrorView::CorruptDatabase { path: path@, message: message@ },
            IndexError::CorruptMetadata { path, message } => IndexErrorView::CorruptMetadata { path: path@, message: message@ },
            IndexError::UnsafeIndexDir { path, message } => IndexErrorView::UnsafeIndexDir { path: path@, message: message@ },
            IndexError::IncompatibleFutureSchema { path, found_version, supported_version } => IndexErrorView::IncompatibleFutureSchema { path: path@, found_version: *found_version, supported_version: *supported_version },
            IndexError::Migration { path, from_version, to_version, message } => IndexErrorView::Migration { path: path@, from_version: *from_version, to_version: *to_version, message: message@ },
            IndexError::PersistScan { path, message } => IndexErrorView::PersistScan { path: path@, message: message@ },
            IndexError::PersistGitAnalysis { path, message } => IndexErrorView::PersistGitAnalysis { path: path@, message: message@ },
            IndexError::PersistSymbols { path, message } => IndexErrorView::PersistSymbols { path: path@, message: message@ },
            IndexError::PersistHotspots { path, message } => IndexErrorView::PersistHotspots { path: path@, message: message@ },
            IndexError::ReadIndex { path, message } => IndexErrorView::ReadIndex { path: path@, message: message@ },
            IndexError::InvalidScanData { path, message } => IndexErrorView::InvalidScanData { path: path@, message: message@ },
            IndexError::InvalidGitAnalysisData { path, message } => IndexErrorView::InvalidGitAnalysisData { path: path@, message: message@ },
            IndexError::InvalidSymbolData { path, message } => IndexErrorView::InvalidSymbolData { path: path@, message: message@ },
            IndexError::InvalidHotspotData { path, message } => IndexErrorView::InvalidHotspotData { path: path@, message: message@ },
        }
    }
}

/// What [`ScanError`] stands for.
#[verifier::ext_equal]
pub enum ScanErrorView {
    CurrentDir(Seq<char>),
    Root { path: Seq<char>, message: Seq<char> },
    RootNotDirectory { path: Seq<char> },
    RelativePath { root: Seq<char>, path: Seq<char> },
    Index(IndexErrorView),
    PersistSymbols(IndexErrorView),
    Json(Seq<char>),
}

impl DeepView for ScanError {
    type V = ScanErrorView;

    open spec fn deep_view(&self) -> ScanErrorView {
        match self {
            ScanError::CurrentDir(inner) => ScanErrorView::CurrentDir(inner@),
            ScanError::Root { path, message } => ScanErrorView::Root { path: path@, message: message@ },
            ScanError::RootNotDirectory { path } => ScanErrorView::RootNotDirectory { path: path@ },
            ScanError::RelativePath { root, path } => ScanErrorView::RelativePath { root: root@, path: path@ },
            ScanError::Index(inner) => ScanErrorView::Index(inner.deep_view()),
            ScanError::PersistSymbols(inner) => ScanErrorView::PersistSymbols(inner.deep_view()),
            ScanError::Json(inner) => ScanErrorView::Json(inner@),
        }
    }
}

/// What [`DoctorError`] stands for.
#[verifier::ext_equal]
pub enum DoctorErrorView {
    CurrentDir(Seq<char>),
    Index(Seq<char>),
}

impl DeepView for DoctorError {
    type V = DoctorErrorView;

    open spec fn deep_view(&self) -> DoctorErrorView {
        match self {
            DoctorError::CurrentDir(inner) => DoctorErrorView::CurrentDir(inner@),
            DoctorError::Index(inner) => DoctorErrorView::Index(inner@),
        }
    }
}

/// What [`ExplainGitCommandError`] stands for.
#[verifier::ext_equal]
pub enum ExplainGitCommandErrorView {
    CurrentDir(Seq<char>),
    Git(GitExplainErrorView),
    Index(Seq<char>),
}

impl DeepView for ExplainGitCommandError {
    type V = ExplainGitCommandErrorView;

    open spec fn deep_view(&self) -> ExplainGitCommandErrorView {
        match self {
            ExplainGitCommandError::CurrentDir(inner) => ExplainGitCommandErrorView::CurrentDir(inner@),
            ExplainGitCommandError::Git(inner) => ExplainGitCommandErrorView::Git(inner.deep_view()),
            ExplainGitCommandError::Index(inner) => ExplainGitCommandErrorView::Index(inner@),
        }
    }
}

/// What [`HotspotsCommandError`] stands for.
#[verifier::ext_equal]
pub enum HotspotsCommandErrorView {
    CurrentDir(Seq<char>),
    Git(GitHistoryErrorView),
    Scan(ScanErrorView),
    PersistScan(IndexErrorView),
    PersistGitAnalysis(IndexErrorView),
    PersistHotspots(IndexErrorView),
}

impl DeepView for HotspotsCommandError {
    type V = HotspotsCommandErrorView;

    open spec fn deep_view(&self) -> HotspotsCommandErrorView {
        match self {
            HotspotsCommandError::CurrentDir(inner) => HotspotsCommandErrorView::CurrentDir(inner@),
            HotspotsCommandError::Git(inner) => HotspotsCommandErrorView::Git(inner.deep_view()),
            HotspotsCommandError::Scan(inner) => HotspotsCommandErrorView::Scan(inner.deep_view()),
            HotspotsCommandError::PersistScan(inner) => HotspotsCommandErrorView::PersistScan(inner.deep_view()),
            HotspotsCommandError::PersistGitAnalysis(inner) => HotspotsCommandErrorView::PersistGitAnalysis(inner.deep_view()),
            HotspotsCommandError::PersistHotspots(inner) => HotspotsCommandErrorView::PersistHotspots(inner.deep_view()),
        }
    }
}

/// What [`DiffCommandError`] stands for.
#[verifier::ext_equal]
pub enum DiffCommandErrorView {
    CurrentDir(Seq<char>),
    Diff(DiffErrorView),
    Git(GitHistoryErrorView),
    Scan(ScanErrorView),
    Json(Seq<char>),
}

impl DeepView for DiffCommandError {
    type V = DiffCommandErrorView;

    open spec fn deep_view(&self) -> DiffCommandErrorView {
        match self {
            DiffCommandError::CurrentDir(inner) => DiffCommandErrorView::CurrentDir(inner@),
            DiffCommandError::Diff(inner) => DiffCommandErrorView::Diff(inner.deep_view()),
            DiffCommandError::Git(inner) => DiffCommandErrorView::Git(inner.deep_view()),
            DiffCommandError::Scan(inner) => DiffCommandErrorView::Scan(inner.deep_view()),
            DiffCommandError::Json(inner) => DiffCommandErrorView::Json(inner@),
        }
    }
}

/// What [`ContextCommandError`] stands for.
#[verifier::ext_equal]
pub enum ContextCommandErrorView {
    CurrentDir(Seq<char>),
    Scan(ScanErrorView),
    PersistScan(IndexErrorView),
    Json(Seq<char>),
}

impl DeepView for ContextCommandError {
    type V = ContextCommandErrorView;

    open spec fn deep_view(&self) -> ContextCommandErrorView {
        match self {
            ContextCommandError::CurrentDir(inner) => ContextCommandErrorView::CurrentDir(inner@),
            ContextCommandError::Scan(inner) => ContextCommandErrorView::Scan(inner.deep_view()),
            ContextCommandError::PersistScan(inner) => ContextCommandErrorView::PersistScan(inner.deep_view()),
            ContextCommandError::Json(inner) => ContextCommandErrorView::Json(inner@),
        }
    }
}

/// What [`ExplainCommandError`] stands for.
#[verifier::ext_equal]
pub enum ExplainCommandErrorView {
    CurrentDir(Seq<char>),
    Git(GitHistoryErrorView),
    Path(ExplainPathErrorView),
    Scan(ScanErrorView),
    PersistScan(IndexErrorView),
    PersistGitAnalysis(IndexErrorView),
    PersistHotspots(IndexErrorView),
}

impl DeepView for ExplainCommandError {
    type V = ExplainCommandErrorView;

    open spec fn deep_view(&self) -> ExplainCommandErrorView {
        match self {
            ExplainCommandError::CurrentDir(inner) => ExplainCommandErrorView::CurrentDir(inner@),
            ExplainCommandError::Git(inner) => ExplainCommandErrorView::Git(inner.deep_view()),
            ExplainCommandError::Path(inner) => ExplainCommandErrorView::Path(inner.deep_view()),
            ExplainCommandError::Scan(inner) => ExplainCommandErrorView::Scan(inner.deep_view()),
            ExplainCommandError::PersistScan(inner) => ExplainCommandErrorView::PersistScan(inner.deep_view()),
            ExplainCommandError::PersistGitAnalysis(inner) => ExplainCommandErrorView::PersistGitAnalysis(inner.deep_view()),
            ExplainCommandError::PersistHotspots(inner) => ExplainCommandErrorView::PersistHotspots(inner.deep_view()),
        }
    }
}

/// What [`ExplainPathError`] stands for.
#[verifier::ext_equal]
pub enum ExplainPathErrorView {
    EmptyPath,
    PathOutsideRepository,
    UnsupportedPathEncoding,
    AmbiguousPath { first: Seq<char>, second: Seq<char> },
    NotCurrentFile,
}

impl DeepView for ExplainPathError {
    type V = ExplainPathErrorView;

    open spec fn deep_view(&self) -> ExplainPathErrorView {
        match self {
            ExplainPathError::EmptyPath => ExplainPathErrorView::EmptyPath,
            ExplainPathError::PathOutsideRepository => ExplainPathErrorView::PathOutsideRepository,
            ExplainPathError::UnsupportedPathEncoding => ExplainPathErrorView::UnsupportedPathEncoding,
            ExplainPathError::AmbiguousPath { first, second } => ExplainPathErrorView::AmbiguousPath { first: first@, second: second@ },
            ExplainPathError::NotCurrentFile => ExplainPathErrorView::NotCurrentFile,
        }
    }
}

/// `out` with what is wrong with the index behind it, and what to do about it.
pub open spec fn added_index_error(
    out: Seq<char>,
    error: IndexErrorView,
    command: Seq<char>,
) -> Seq<char> {
    match error {
        IndexErrorView::CreateIndexDir { .. } => out
                + "could not create .hotpath; ensure the repository directory is writable"@,
        IndexErrorView::AccessIndex { .. } => out
                + "could not access .hotpath; ensure it is readable"@,
        IndexErrorView::OpenDatabase { .. } => out
                + "could not open .hotpath/index.db; ensure it is readable or remove it to rebuild"@,
        IndexErrorView::CorruptDatabase { .. } => out
                + "the index is unreadable or corrupt; remove .hotpath/index.db and rerun "@
                + command,
        IndexErrorView::CorruptMetadata { .. } => out
                + "the index schema metadata is invalid; remove .hotpath/index.db and rerun "@
                + command,
        IndexErrorView::UnsafeIndexDir { .. } => out
                + "refusing to use unsafe .hotpath directory; replace it with a regular directory"@,
        IndexErrorView::IncompatibleFutureSchema { found_version, supported_version, .. } => out
                + "index schema version "@
                + numbers::decimal(found_version as nat)
                + " is newer than supported version "@
                + numbers::decimal(supported_version as nat)
                + "; use a newer hotpath binary or remove .hotpath/index.db to rebuild"@,
        IndexErrorView::Migration { from_version, to_version, .. } => out
                + "could not migrate index schema from version "@
                + numbers::decimal(from_version as nat)
                + " to "@
                + numbers::decimal(to_version as nat)
                + "; remove .hotpath/index.db to rebuild if the index can be discarded"@,
        IndexErrorView::PersistScan { .. } => out
                + "could not update .hotpath/index.db; ensure the index is writable"@,
        IndexErrorView::PersistGitAnalysis { .. } => out
                + "could not update .hotpath/index.db; ensure the index is writable"@,
        IndexErrorView::PersistSymbols { .. } => out
                + "could not update .hotpath/index.db; ensure the index is writable"@,
        IndexErrorView::PersistHotspots { .. } => out
                + "could not update .hotpath/index.db; ensure the index is writable"@,
        IndexErrorView::ReadIndex { .. } => out
                + "could not read .hotpath/index.db; inspect the index with `hotpath doctor`"@,
        IndexErrorView::InvalidScanData { message, .. } => out
                + message,
        IndexErrorView::InvalidGitAnalysisData { message, .. } => out
                + message,
        IndexErrorView::InvalidSymbolData { message, .. } => out
                + message,
        IndexErrorView::InvalidHotspotData { message, .. } => out
                + message,
    }
}

fn push_index_error(out: &mut String, error: &IndexError, command: &str)
    ensures
        final(out)@ == added_index_error(old(out)@, error.deep_view(), command@),
{
    match error {
        IndexError::CreateIndexDir { .. } => {
            out.append("could not create .hotpath; ensure the repository directory is writable");
        },
        IndexError::AccessIndex { .. } => {
            out.append("could not access .hotpath; ensure it is readable");
        },
        IndexError::OpenDatabase { .. } => {
            out.append("could not open .hotpath/index.db; ensure it is readable or remove it to rebuild");
        },
        IndexError::CorruptDatabase { .. } => {
            out.append("the index is unreadable or corrupt; remove .hotpath/index.db and rerun ");
            out.append(command);
        },
        IndexError::CorruptMetadata { .. } => {
            out.append("the index schema metadata is invalid; remove .hotpath/index.db and rerun ");
            out.append(command);
        },
        IndexError::UnsafeIndexDir { .. } => {
            out.append("refusing to use unsafe .hotpath directory; replace it with a regular directory");
        },
        IndexError::IncompatibleFutureSchema { found_version, supported_version, .. } => {
            out.append("index schema version ");
            numbers::push_decimal(out, *found_version);
            out.append(" is newer than supported version ");
            numbers::push_decimal(out, *supported_version);
            out.append("; use a newer hotpath binary or remove .hotpath/index.db to rebuild");
        },
        IndexError::Migration { from_version, to_version, .. } => {
            out.append("could not migrate index schema from version ");
            numbers::push_decimal(out, *from_version);
            out.append(" to ");
            numbers::push_decimal(out, *to_version);
            out.append("; remove .hotpath/index.db to rebuild if the index can be discarded");
        },
        IndexError::PersistScan { .. } => {
            out.append("could not update .hotpath/index.db; ensure the index is writable");
        },
        IndexError::PersistGitAnalysis { .. } => {
            out.append("could not update .hotpath/index.db; ensure the index is writable");
        },
        IndexError::PersistSymbols { .. } => {
            out.append("could not update .hotpath/index.db; ensure the index is writable");
        },
        IndexError::PersistHotspots { .. } => {
            out.append("could not update .hotpath/index.db; ensure the index is writable");
        },
        IndexError::ReadIndex { .. } => {
            out.append("could not read .hotpath/index.db; inspect the index with `hotpath doctor`");
        },
        IndexError::InvalidScanData { message, .. } => {
            out.append(message.as_str());
        },
        IndexError::InvalidGitAnalysisData { message, .. } => {
            out.append(message.as_str());
        },
        IndexError::InvalidSymbolData { message, .. } => {
            out.append(message.as_str());
        },
        IndexError::InvalidHotspotData { message, .. } => {
            out.append(message.as_str());
        },
    }
}

/// `out` with what could not be done behind it, why, and what to do about it.
pub open spec fn added_persistence(
    out: Seq<char>,
    action: Seq<char>,
    error: IndexErrorView,
    command: Seq<char>,
) -> Seq<char> {
    added_index_error(
        out + "failed to "@ + action + " in local Hotpath index (.hotpath/index.db): "@,
        error,
        command,
    )
}

fn push_persistence(out: &mut String, action: &str, error: &IndexError, command: &str)
    ensures
        final(out)@ == added_persistence(old(out)@, action@, error.deep_view(), command@),
{
    out.append("failed to ");
    out.append(action);
    out.append(" in local Hotpath index (.hotpath/index.db): ");
    push_index_error(out, error, command);
}

impl ScanErrorView {
    /// The error in words.
    pub open spec fn words(self) -> Seq<char> {
        added_scan_error(Seq::empty(), self)
    }
}

/// `out` with the error in words behind it.
pub open spec fn added_scan_error(out: Seq<char>, error: ScanErrorView) -> Seq<char> {
    match error {
        ScanErrorView::CurrentDir(message) => out
                + "failed to determine the current directory: "@
                + message,
        ScanErrorView::Root { path, message } => out
                + "failed to access scan root '"@
                + path
                + "': "@
                + message,
        ScanErrorView::RootNotDirectory { path } => out
                + "scan root '"@
                + path
                + "' is not a directory"@,
        ScanErrorView::RelativePath { root, path } => out
                + "failed to make '"@
                + path
                + "' relative to scan root '"@
                + root
                + "'"@,
        ScanErrorView::Index(source) => added_persistence(out, "persist scan results"@, source, "scan"@),
        ScanErrorView::PersistSymbols(source) => added_persistence(out, "persist parser symbols"@, source, "parse"@),
        ScanErrorView::Json(message) => out
                + "failed to render scan JSON: "@
                + message,
    }
}

fn push_scan_error(out: &mut String, error: &ScanError)
    ensures
        final(out)@ == added_scan_error(old(out)@, error.deep_view()),
{
    match error {
        ScanError::CurrentDir(message) => {
            out.append("failed to determine the current directory: ");
            out.append(message.as_str());
        },
        ScanError::Root { path, message } => {
            out.append("failed to access scan root '");
            out.append(path.as_str());
            out.append("': ");
            out.append(message.as_str());
        },
        ScanError::RootNotDirectory { path } => {
            out.append("scan root '");
            out.append(path.as_str());
            out.append("' is not a directory");
        },
        ScanError::RelativePath { root, path } => {
            out.append("failed to make '");
            out.append(path.as_str());
            out.append("' relative to scan root '");
            out.append(root.as_str());
            out.append("'");
        },
        ScanError::Index(source) => {
            push_persistence(out, "persist scan results", source, "scan");
        },
        ScanError::PersistSymbols(source) => {
            push_persistence(out, "persist parser symbols", source, "parse");
        },
        ScanError::Json(message) => {
            out.append("failed to render scan JSON: ");
            out.append(message.as_str());
        },
    }
}

impl ScanError {
    /// The error in words.
    pub fn message(&self) -> (out: String)
        ensures
            out@ == self.deep_view().words(),
    {
        let mut text = String::new();
        assert(text@ =~= Seq::<char>::empty());
        push_scan_error(&mut text, self);
        text
    }
}

impl DoctorErrorView {
    /// The error in words.
    pub open spec fn words(self) -> Seq<char> {
        added_doctor_error(Seq::empty(), self)
    }
}

/// `out` with the error in words behind it.
pub open spec fn added_doctor_error(out: Seq<char>, error: DoctorErrorView) -> Seq<char> {
    match error {
        DoctorErrorView::CurrentDir(message) => out
                + "failed to determine the current directory: "@
                + message,
        DoctorErrorView::Index(message) => out
                + "failed to inspect Hotpath index: "@
                + message,
    }
}

fn push_doctor_error(out: &mut String, error: &DoctorError)
    ensures
        final(out)@ == added_doctor_error(old(out)@, error.deep_view()),
{
    match error {
        DoctorError::CurrentDir(message) => {
            out.append("failed to determine the current directory: ");
            out.append(message.as_str());
        },
        DoctorError::Index(message) => {
            out.append("failed to inspect Hotpath index: ");
            out.append(message.as_str());
        },
    }
}

impl DoctorError {
    /// The error in words.
    pub fn message(&self) -> (out: String)
        ensures
            out@ == self.deep_view().words(),
    {
        let mut text = String::new();
        assert(text@ =~= Seq::<char>::empty());
        push_doctor_error(&mut text, self);
        text
    }
}

impl ExplainGitCommandErrorView {
    /// The error in words.
    pub open spec fn words(self) -> Seq<char> {
        added_explain_git_command_error(Seq::empty(), self)
    }
}

/// `out` with the error in words behind it.
pub open spec fn added_explain_git_command_error(out: Seq<char>, error: ExplainGitCommandErrorView) -> Seq<char> {
    match error {
        ExplainGitCommandErrorView::CurrentDir(message) => out
                + "failed to determine the current directory: "@
                + message,
        ExplainGitCommandErrorView::Git(source) => out + errors::explain_error_words(source),
        ExplainGitCommandErrorView::Index(message) => out
                + "failed to persist Git analysis: "@
                + message,
    }
}

fn push_explain_git_command_error(out: &mut String, error: &ExplainGitCommandError)
    ensures
        final(out)@ == added_explain_git_command_error(old(out)@, error.deep_view()),
{
    match error {
        ExplainGitCommandError::CurrentDir(message) => {
            out.append("failed to determine the current directory: ");
            out.append(message.as_str());
        },
        ExplainGitCommandError::Git(source) => {
            let words = source.message();
            out.append(words.as_str());
        },
        ExplainGitCommandError::Index(message) => {
            out.append("failed to persist Git analysis: ");
            out.append(message.as_str());
        },
    }
}

impl ExplainGitCommandError {
    /// The error in words.
    pub fn message(&self) -> (out: String)
        ensures
            out@ == self.deep_view().words(),
    {
        let mut text = String::new();
        assert(text@ =~= Seq::<char>::empty());
        push_explain_git_command_error(&mut text, self);
        text
    }
}

impl HotspotsCommandErrorView {
    /// The error in words.
    pub open spec fn words(self) -> Seq<char> {
        added_hotspots_command_error(Seq::empty(), self)
    }
}

/// `out` with the error in words behind it.
pub open spec fn added_hotspots_command_error(out: Seq<char>, error: HotspotsCommandErrorView) -> Seq<char> {
    match error {
        HotspotsCommandErrorView::CurrentDir(message) => out
                + "failed to determine the current directory: "@
                + message,
        HotspotsCommandErrorView::Git(source) => out + errors::history_error_words(source, GitHistoryUsage::Hotspots),
        HotspotsCommandErrorView::Scan(source) => added_scan_error(out, source),
        HotspotsCommandErrorView::PersistScan(source) => added_persistence(out, "persist scan results"@, source, "hotspots"@),
        HotspotsCommandErrorView::PersistGitAnalysis(source) => added_persistence(out, "persist Git analysis"@, source, "hotspots"@),
        HotspotsCommandErrorView::PersistHotspots(source) => added_persistence(out, "persist hotspot scores"@, source, "hotspots"@),
    }
}

fn push_hotspots_command_error(out: &mut String, error: &HotspotsCommandError)
    ensures
        final(out)@ == added_hotspots_command_error(old(out)@, error.deep_view()),
{
    match error {
        HotspotsCommandError::CurrentDir(message) => {
            out.append("failed to determine the current directory: ");
            out.append(message.as_str());
        },
        HotspotsCommandError::Git(source) => {
            let words = errors::git_history_error_message(source, GitHistoryUsage::Hotspots);
            out.append(words.as_str());
        },
        HotspotsCommandError::Scan(source) => {
            push_scan_error(out, source);
        },
        HotspotsCommandError::PersistScan(source) => {
            push_persistence(out, "persist scan results", source, "hotspots");
        },
        HotspotsCommandError::PersistGitAnalysis(source) => {
            push_persistence(out, "persist Git analysis", source, "hotspots");
        },
        HotspotsCommandError::PersistHotspots(source) => {
            push_persistence(out, "persist hotspot scores", source, "hotspots");
        },
    }
}

impl HotspotsCommandError {
    /// The error in words.
    pub fn message(&self) -> (out: String)
        ensures
            out@ == self.deep_view().words(),
    {
        let mut text = String::new();
        assert(text@ =~= Seq::<char>::empty());
        push_hotspots_command_error(&mut text, self);
        text
    }
}

impl DiffCommandErrorView {
    /// The error in words.
    pub open spec fn words(self) -> Seq<char> {
        added_diff_command_error(Seq::empty(), self)
    }
}

/// `out` with the error in words behind it.
pub open spec fn added_diff_command_error(out: Seq<char>, error: DiffCommandErrorView) -> Seq<char> {
    match error {
        DiffCommandErrorView::CurrentDir(message) => out
                + "failed to determine the current directory: "@
                + message,
        DiffCommandErrorView::Diff(source) => out + source.words(),
        DiffCommandErrorView::Git(source) => out + errors::history_error_words(source, GitHistoryUsage::Diff),
        DiffCommandErrorView::Scan(source) => added_scan_error(out, source),
        DiffCommandErrorView::Json(message) => out
                + "failed to render diff JSON: "@
                + message,
    }
}

fn push_diff_command_error(out: &mut String, error: &DiffCommandError)
    ensures
        final(out)@ == added_diff_command_error(old(out)@, error.deep_view()),
{
    match error {
        DiffCommandError::CurrentDir(message) => {
            out.append("failed to determine the current directory: ");
            out.append(message.as_str());
        },
        DiffCommandError::Diff(source) => {
            let words = source.message();
            out.append(words.as_str());
        },
        DiffCommandError::Git(source) => {
            let words = errors::git_history_error_message(source, GitHistoryUsage::Diff);
            out.append(words.as_str());
        },
        DiffCommandError::Scan(source) => {
            push_scan_error(out, source);
        },
        DiffCommandError::Json(message) => {
            out.append("failed to render diff JSON: ");
            out.append(message.as_str());
        },
    }
}

impl DiffCommandError {
    /// The error in words.
    pub fn message(&self) -> (out: String)
        ensures
            out@ == self.deep_view().words(),
    {
        let mut text = String::new();
        assert(text@ =~= Seq::<char>::empty());
        push_diff_command_error(&mut text, self);
        text
    }
}

impl ContextCommandErrorView {
    /// The error in words.
    pub open spec fn words(self) -> Seq<char> {
        added_context_command_error(Seq::empty(), self)
    }
}

/// `out` with the error in words behind it.
pub open spec fn added_context_command_error(out: Seq<char>, error: ContextCommandErrorView) -> Seq<char> {
    match error {
        ContextCommandErrorView::CurrentDir(message) => out
                + "failed to determine the current directory: "@
                + message,
        ContextCommandErrorView::Scan(source) => added_scan_error(out, source),
        ContextCommandErrorView::PersistScan(source) => added_persistence(out, "persist scan results"@, source, "context"@),
        ContextCommandErrorView::Json(message) => out
                + "failed to render context JSON: "@
                + message,
    }
}

fn push_context_command_error(out: &mut String, error: &ContextCommandError)
    ensures
        final(out)@ == added_context_command_error(old(out)@, error.deep_view()),
{
    match error {
        ContextCommandError::CurrentDir(message) => {
            out.append("failed to determine the current directory: ");
            out.append(message.as_str());
        },
        ContextCommandError::Scan(source) => {
            push_scan_error(out, source);
        },
        ContextCommandError::PersistScan(source) => {
            push_persistence(out, "persist scan results", source, "context");
        },
        ContextCommandError::Json(message) => {
            out.append("failed to render context JSON: ");
            out.append(message.as_str());
        },
    }
}

impl ContextCommandError {
    /// The error in words.
    pub fn message(&self) -> (out: String)
        ensures
            out@ == self.deep_view().words(),
    {
        let mut text = String::new();
        assert(text@ =~= Seq::<char>::empty());
        push_context_command_error(&mut text, self);
        text
    }
}

impl ExplainPathErrorView {
    /// The error in words.
    pub open spec fn words(self) -> Seq<char> {
        added_explain_path_error(Seq::empty(), self)
    }
}

/// `out` with the error in words behind it.
pub open spec fn added_explain_path_error(out: Seq<char>, error: ExplainPathErrorView) -> Seq<char> {
    match error {
        ExplainPathErrorView::EmptyPath => out
                + "explain requires a non-empty file path"@,
        ExplainPathErrorView::PathOutsideRepository => out
                + "requested path is outside the Git worktree; pass a repository-relative path or a path under the current worktree"@,
        ExplainPathErrorView::UnsupportedPathEncoding => out
                + "requested path is not valid UTF-8 and cannot be rendered as a portable repository-relative path"@,
        ExplainPathErrorView::AmbiguousPath { first, second } => out
                + "requested path is ambiguous inside this worktree; it could refer to '"@
                + first
                + "' or '"@
                + second
                + "'"@,
        ExplainPathErrorView::NotCurrentFile => out
                + "requested path is not a current scanned file; pass an existing file under the worktree"@,
    }
}

fn push_explain_path_error(out: &mut String, error: &ExplainPathError)
    ensures
        final(out)@ == added_explain_path_error(old(out)@, error.deep_view()),
{
    match error {
        ExplainPathError::EmptyPath => {
            out.append("explain requires a non-empty file path");
        },
        ExplainPathError::PathOutsideRepository => {
            out.append("requested path is outside the Git worktree; pass a repository-relative path or a path under the current worktree");
        },
        ExplainPathError::UnsupportedPathEncoding => {
            out.append("requested path is not valid UTF-8 and cannot be rendered as a portable repository-relative path");
        },
        ExplainPathError::AmbiguousPath { first, second } => {
            out.append("requested path is ambiguous inside this worktree; it could refer to '");
            out.append(first.as_str());
            out.append("' or '");
            out.append(second.as_str());
            out.append("'");
        },
        ExplainPathError::NotCurrentFile => {
            out.append("requested path is not a current scanned file; pass an existing file under the worktree");
        },
    }
}

impl ExplainPathError {
    /// The error in words.
    pub fn message(&self) -> (out: String)
        ensures
            out@ == self.deep_view().words(),
    {
        let mut text = String::new();
        assert(text@ =~= Seq::<char>::empty());
        push_explain_path_error(&mut text, self);
        text
    }
}

impl ExplainCommandErrorView {
    /// The error in words.
    pub open spec fn words(self) -> Seq<char> {
        added_explain_command_error(Seq::empty(), self)
    }
}

/// `out` with the error in words behind it.
pub open spec fn added_explain_command_error(out: Seq<char>, error: ExplainCommandErrorView) -> Seq<char> {
    match error {
        ExplainCommandErrorView::CurrentDir(message) => out
                + "failed to determine the current directory: "@
                + message,
        ExplainCommandErrorView::Git(source) => out + errors::history_error_words(source, GitHistoryUsage::ExplainHotspot),
        ExplainCommandErrorView::Path(source) => added_explain_path_error(out, source),
        ExplainCommandErrorView::Scan(source) => added_scan_error(out, source),
        ExplainCommandErrorView::PersistScan(source) => added_persistence(out, "persist scan results"@, source, "explain"@),
        ExplainCommandErrorView::PersistGitAnalysis(source) => added_persistence(out, "persist Git analysis"@, source, "explain"@),
        ExplainCommandErrorView::PersistHotspots(source) => added_persistence(out, "persist hotspot scores"@, source, "explain"@),
    }
}

fn push_explain_command_error(out: &mut String, error: &ExplainCommandError)
    ensures
        final(out)@ == added_explain_command_error(old(out)@, error.deep_view()),
{
    match error {
        ExplainCommandError::CurrentDir(message) => {
            out.append("failed to determine the current directory: ");
            out.append(message.as_str());
        },
        ExplainCommandError::Git(source) => {
            let words = errors::git_history_error_message(source, GitHistoryUsage::ExplainHotspot);
            out.append(words.as_str());
        },
        ExplainCommandError::Path(source) => {
            push_explain_path_error(out, source);
        },
        ExplainCommandError::Scan(source) => {
            push_scan_error(out, source);
        },
        ExplainCommandError::PersistScan(source) => {
            push_persistence(out, "persist scan results", source, "explain");
        },
        ExplainCommandError::PersistGitAnalysis(source) => {
            push_persistence(out, "persist Git analysis", source, "explain");
        },
        ExplainCommandError::PersistHotspots(source) => {
            push_persistence(out, "persist hotspot scores", source, "explain");
        },
    }
}

impl ExplainCommandError {
    /// The error in words.
    pub fn message(&self) -> (out: String)
        ensures
            out@ == self.deep_view().words(),
    {
        let mut text = String::new();
        assert(text@ =~= Seq::<char>::empty());
        push_explain_command_error(&mut text, self);
        text
    }
}

impl vstd::std_specs::convert::FromSpecImpl<IndexError> for ScanError {
    open spec fn obeys_from_spec() -> bool {
        true
    }

    open spec fn from_spec(source: IndexError) -> ScanError {
        ScanError::Index(source)
    }
}

impl From<IndexError> for ScanError {
    fn from(source: IndexError) -> (out: ScanError) {
        ScanError::Index(source)
    }
}

impl vstd::std_specs::convert::FromSpecImpl<GitExplainError> for ExplainGitCommandError {
    open spec fn obeys_from_spec() -> bool {
        true
    }

    open spec fn from_spec(source: GitExplainError) -> ExplainGitCommandError {
        ExplainGitCommandError::Git(source)
    }
}

impl From<GitExplainError> for ExplainGitCommandError {
    fn from(source: GitExplainError) -> (out: ExplainGitCommandError) {
        ExplainGitCommandError::Git(source)
    }
}

impl vstd::std_specs::convert::FromSpecImpl<GitHistoryError> for ExplainCommandError {
    open spec fn obeys_from_spec() -> bool {
        true
    }

    open spec fn from_spec(source: GitHistoryError) -> ExplainCommandError {
        ExplainCommandError::Git(source)
    }
}

impl From<GitHistoryError> for ExplainCommandError {
    fn from(source: GitHistoryError) -> (out: ExplainCommandError) {
        ExplainCommandError::Git(source)
    }
}

impl vstd::std_specs::convert::FromSpecImpl<ScanError> for ExplainCommandError {
    open spec fn obeys_from_spec() -> bool {
        true
    }

    open spec fn from_spec(source: ScanError) -> ExplainCommandError {
        ExplainCommandError::Scan(source)
    }
}

impl From<ScanError> for ExplainCommandError {
    fn from(source: ScanError) -> (out: ExplainCommandError) {
        ExplainCommandError::Scan(source)
    }
}

impl vstd::std_specs::convert::FromSpecImpl<GitHistoryError> for HotspotsCommandError {
    open spec fn obeys_from_spec() -> bool {
        true
    }

    open spec fn from_spec(source: GitHistoryError) -> HotspotsCommandError {
        HotspotsCommandError::Git(source)
    }
}

impl From<GitHistoryError> for HotspotsCommandError {
    fn from(source: GitHistoryError) -> (out: HotspotsCommandError) {
        HotspotsCommandError::Git(source)
    }
}

impl vstd::std_specs::convert::FromSpecImpl<ScanError> for HotspotsCommandError {
    open spec fn obeys_from_spec() -> bool {
        true
    }

    open spec fn from_spec(source: ScanError) -> HotspotsCommandError {
        HotspotsCommandError::Scan(source)
    }
}

impl From<ScanError> for HotspotsCommandError {
    fn from(source: ScanError) -> (out: HotspotsCommandError) {
        HotspotsCommandError::Scan(source)
    }
}

impl vstd::std_specs::convert::FromSpecImpl<DiffError> for DiffCommandError {
    open spec fn obeys_from_spec() -> bool {
        true
    }

    open spec fn from_spec(source: DiffError) -> DiffCommandError {
        DiffCommandError::Diff(source)
    }
}

impl From<DiffError> for DiffCommandError {
    fn from(source: DiffError) -> (out: DiffCommandError) {
        DiffCommandError::Diff(source)
    }
}

impl vstd::std_specs::convert::FromSpecImpl<GitHistoryError> for DiffCommandError {
    open spec fn obeys_from_spec() -> bool {
        true
    }

    open spec fn from_spec(source: GitHistoryError) -> DiffCommandError {
        DiffCommandError::Git(source)
    }
}

impl From<GitHistoryError> for DiffCommandError {
    fn from(source: GitHistoryError) -> (out: DiffCommandError) {
        DiffCommandError::Git(source)
    }
}

impl vstd::std_specs::convert::FromSpecImpl<ScanError> for DiffCommandError {
    open spec fn obeys_from_spec() -> bool {
        true
    }

    open spec fn from_spec(source: ScanError) -> DiffCommandError {
        DiffCommandError::Scan(source)
    }
}

impl From<ScanError> for DiffCommandError {
    fn from(source: ScanError) -> (out: DiffCommandError) {
        DiffCommandError::Scan(source)
    }
}

impl vstd::std_specs::convert::FromSpecImpl<ScanError> for ContextCommandError {
    open spec fn obeys_from_spec() -> bool {
        true
    }

    open spec fn from_spec(source: ScanError) -> ContextCommandError {
        ContextCommandError::Scan(source)
    }
}

impl From<ScanError> for ContextCommandError {
    fn from(source: ScanError) -> (out: ContextCommandError) {
        ContextCommandError::Scan(source)
    }
}

/// The paths of files.
pub open spec fn scanned_paths(files: Seq<FileRecordView>) -> Set<Seq<char>>
    decreases files.len(),
{
    if files.len() == 0 {
        Set::empty()
    } else {
        scanned_paths(files.drop_last()).insert(files.last().path)
    }
}

pub(crate) fn set_of_paths(files: &Vec<FileRecord>) -> (out: TextSet)
    ensures
        out.wf(),
        out@ == scanned_paths(files.deep_view()),
{
    let ghost all = files.deep_view();
    let mut out = TextSet::new();
    let mut i: usize = 0;
    while i < files.len()
        invariant
            i <= files.len(),
            all == files.deep_view(),
            out.wf(),
            out@ == scanned_paths(all.take(i as int)),
        decreases files.len() - i,
    {
        assert(all.take(i + 1).drop_last() =~= all.take(i as int));
        assert(all.take(i + 1).last() == files@[i as int].deep_view());
        out.insert(files[i].path.as_str());
        i = i + 1;
    }
    assert(all.take(i as int) =~= all);
    out
}

/// The one of the candidates that was scanned.
pub open spec fn chosen_scanned(
    scanned: Set<Seq<char>>,
    candidates: Seq<Seq<char>>,
) -> Result<Seq<char>, ExplainPathErrorView> {
    match paths::selection(candidates, scanned) {
        CandidateSelectionView::One(path) => Ok(path),
        CandidateSelectionView::Ambiguous { first, second } => Err(
            ExplainPathErrorView::AmbiguousPath { first, second },
        ),
        CandidateSelectionView::Nothing => Err(ExplainPathErrorView::NotCurrentFile),
    }
}

/// Whether a result is the one that is expected.
pub open spec fn is_path_outcome(
    out: Result<String, ExplainPathError>,
    expected: Result<Seq<char>, ExplainPathErrorView>,
) -> bool {
    match out {
        Ok(path) => expected == Ok::<Seq<char>, ExplainPathErrorView>(path@),
        Err(fault) => expected == Err::<Seq<char>, ExplainPathErrorView>(fault.deep_view()),
    }
}

/// The one of the candidates that was scanned.
pub fn choose_explain_candidate(scanned: &TextSet, candidates: &[String]) -> (out: Result<
    String,
    ExplainPathError,
>)
    requires
        scanned.wf(),
    ensures
        is_path_outcome(out, chosen_scanned(scanned@, candidates.deep_view())),
{
    match paths::select_unique_candidate(candidates, scanned) {
        CandidateSelection::One(path) => Ok(path),
        CandidateSelection::Ambiguous { first, second } => Err(
            ExplainPathError::AmbiguousPath { first, second },
        ),
        CandidateSelection::Nothing => Err(ExplainPathError::NotCurrentFile),
    }
}

/// The scanned file that a requested path names, seen from the current directory or from
/// the root of the worktree.
pub open spec fn explained_path(
    places: RequestPlacesView,
    requested: NativePathView,
    files: Seq<FileRecordView>,
) -> Result<Seq<char>, ExplainPathErrorView> {
    match native::candidates_for(places, requested) {
        Err(RequestFault::EmptyPath) => Err(ExplainPathErrorView::EmptyPath),
        Err(RequestFault::OutsideRepository) => Err(ExplainPathErrorView::PathOutsideRepository),
        Err(RequestFault::UnsupportedEncoding) => Err(
            ExplainPathErrorView::UnsupportedPathEncoding,
        ),
        Ok(candidates) => chosen_scanned(scanned_paths(files), candidates),
    }
}

/// The scanned file that a requested path names, seen from the current directory or from
/// the root of the worktree.
pub fn normalize_explain_file_path(
    places: &RequestPlaces,
    requested_path: &NativePath,
    files: &Vec<FileRecord>,
) -> (out: Result<String, ExplainPathError>)
    ensures
        is_path_outcome(
            out,
            explained_path(places.deep_view(), requested_path.deep_view(), files.deep_view()),
        ),
{
    match native::requested_candidates(places, requested_path) {
        Err(RequestFault::EmptyPath) => Err(ExplainPathError::EmptyPath),
        Err(RequestFault::OutsideRepository) => Err(ExplainPathError::PathOutsideRepository),
        Err(RequestFault::UnsupportedEncoding) => Err(ExplainPathError::UnsupportedPathEncoding),
        Ok(candidates) => {
            let scanned = set_of_paths(files);
            choose_explain_candidate(&scanned, candidates.as_slice())
        },
    }
}

/// The state of the index in words.
pub open spec fn doctor_text(
    index_path: Seq<char>,
    schema_version: Seq<char>,
    readable: Seq<char>,
    health: Seq<char>,
) -> Seq<char> {
    "Hotpath doctor\nindex path: "@ + index_path + "\nschema version: "@ + schema_version
        + "\nreadable: "@ + readable + "\nhealth: "@ + health
}

/// Renders the state of the index.
pub fn render_doctor(index_path: &str, schema_version: &str, readable: &str, health: &str) -> (out:
    String)
    ensures
        out@ == doctor_text(index_path@, schema_version@, readable@, health@),
{
    let mut out = "Hotpath doctor\nindex path: ".to_string();
    out.append(index_path);
    out.append("\nschema version: ");
    out.append(schema_version);
    out.append("\nreadable: ");
    out.append(readable);
    out.append("\nhealth: ");
    out.append(health);
    out
}

/// The path of the index as it is shown: below the root, where it lies there.
pub open spec fn shown_index_path(root: Seq<char>, index_path: Seq<char>) -> Seq<char> {
    let below = paths::parts_below(paths::written(root), paths::written(index_path));
    text::replaced(
        match below {
            Some(parts) => text::joined(parts, "/"@),
            None => index_path,
        },
        '\\',
        '/',
    )
}

/// Tells the state of an index, by the version of its schema where it can be read. Both paths have
/// `/` between their names.
pub fn doctor_repository(root: &str, index_path: &str, schema_version: Option<u64>) -> (out: String)
    ensures
        out@ == (match schema_version {
            Some(version) => doctor_text(
                shown_index_path(root@, index_path@),
                numbers::decimal(version as nat),
                "yes"@,
                "healthy"@,
            ),
            None => doctor_text(
                shown_index_path(root@, index_path@),
                "none"@,
                "no"@,
                "missing"@,
            ),
        }),
{
    let below = paths::strip_root(&paths::as_written(root), &paths::as_written(index_path));
    let shown = match below {
        Some(relative) => text::replace_char(relative.as_str(), '\\', '/'),
        None => text::replace_char(index_path, '\\', '/'),
    };
    match schema_version {
        Some(version) => render_doctor(
            shown.as_str(),
            numbers::decimal_text(version).as_str(),
            "yes",
            "healthy",
        ),
        None => render_doctor(shown.as_str(), "none", "no", "missing"),
    }
}

/// The same error of an index at another path.
pub open spec fn at_path(error: IndexErrorView, path: Seq<char>) -> IndexErrorView {
    match error {
        IndexErrorView::CreateIndexDir { message, .. } => IndexErrorView::CreateIndexDir { path, message },
        IndexErrorView::AccessIndex { message, .. } => IndexErrorView::AccessIndex { path, message },
        IndexErrorView::OpenDatabase { message, .. } => IndexErrorView::OpenDatabase { path, message },
        IndexErrorView::CorruptDatabase { message, .. } => IndexErrorView::CorruptDatabase { path, message },
        IndexErrorView::CorruptMetadata { message, .. } => IndexErrorView::CorruptMetadata { path, message },
        IndexErrorView::UnsafeIndexDir { message, .. } => IndexErrorView::UnsafeIndexDir { path, message },
        IndexErrorView::IncompatibleFutureSchema { found_version, supported_version, .. } => IndexErrorView::IncompatibleFutureSchema { path, found_version, supported_version },
        IndexErrorView::Migration { from_version, to_version, message, .. } => IndexErrorView::Migration { path, from_version, to_version, message },
        IndexErrorView::PersistScan { message, .. } => IndexErrorView::PersistScan { path, message },
        IndexErrorView::PersistGitAnalysis { message, .. } => IndexErrorView::PersistGitAnalysis { path, message },
        IndexErrorView::PersistSymbols { message, .. } => IndexErrorView::PersistSymbols { path, message },
        IndexErrorView::PersistHotspots { message, .. } => IndexErrorView::PersistHotspots { path, message },
        IndexErrorView::ReadIndex { message, .. } => IndexErrorView::ReadIndex { path, message },
        IndexErrorView::InvalidScanData { message, .. } => IndexErrorView::InvalidScanData { path, message },
        IndexErrorView::InvalidGitAnalysisData { message, .. } => IndexErrorView::InvalidGitAnalysisData { path, message },
        IndexErrorView::InvalidSymbolData { message, .. } => IndexErrorView::InvalidSymbolData { path, message },
        IndexErrorView::InvalidHotspotData { message, .. } => IndexErrorView::InvalidHotspotData { path, message },
    }
}

/// The same error of an index at another path, with another cause. What is wrong with data is no
/// cause but the error itself.
pub open spec fn caused_by(
    error: IndexErrorView,
    path: Seq<char>,
    cause: Seq<char>,
) -> IndexErrorView {
    match error {
        IndexErrorView::CreateIndexDir { .. } => IndexErrorView::CreateIndexDir { path, message: cause },
        IndexErrorView::AccessIndex { .. } => IndexErrorView::AccessIndex { path, message: cause },
        IndexErrorView::OpenDatabase { .. } => IndexErrorView::OpenDatabase { path, message: cause },
        IndexErrorView::CorruptDatabase { .. } => IndexErrorView::CorruptDatabase { path, message: cause },
        IndexErrorView::CorruptMetadata { .. } => IndexErrorView::CorruptMetadata { path, message: cause },
        IndexErrorView::UnsafeIndexDir { .. } => IndexErrorView::UnsafeIndexDir { path, message: cause },
        IndexErrorView::IncompatibleFutureSchema { found_version, supported_version, .. } => IndexErrorView::IncompatibleFutureSchema { path, found_version, supported_version },
        IndexErrorView::Migration { from_version, to_version, .. } => IndexErrorView::Migration { path, from_version, to_version, message: cause },
        IndexErrorView::PersistScan { .. } => IndexErrorView::PersistScan { path, message: cause },
        IndexErrorView::PersistGitAnalysis { .. } => IndexErrorView::PersistGitAnalysis { path, message: cause },
        IndexErrorView::PersistSymbols { .. } => IndexErrorView::PersistSymbols { path, message: cause },
        IndexErrorView::PersistHotspots { .. } => IndexErrorView::PersistHotspots { path, message: cause },
        IndexErrorView::ReadIndex { .. } => IndexErrorView::ReadIndex { path, message: cause },
        IndexErrorView::InvalidScanData { message, .. } => IndexErrorView::InvalidScanData { path, message },
        IndexErrorView::InvalidGitAnalysisData { message, .. } => IndexErrorView::InvalidGitAnalysisData { path, message },
        IndexErrorView::InvalidSymbolData { message, .. } => IndexErrorView::InvalidSymbolData { path, message },
        IndexErrorView::InvalidHotspotData { message, .. } => IndexErrorView::InvalidHotspotData { path, message },
    }
}

/// What is said of an error does not depend on where the index lies, nor on the words of what
/// caused it, and begins with what could not be done.
pub proof fn messages_do_not_show_the_index_path(
    action: Seq<char>,
    error: IndexErrorView,
    command: Seq<char>,
    path: Seq<char>,
    cause: Seq<char>,
)
    ensures
        added_persistence(Seq::empty(), action, at_path(error, path), command)
            == added_persistence(Seq::empty(), action, error, command),
        added_persistence(Seq::empty(), action, caused_by(error, path, cause), command)
            == added_persistence(Seq::empty(), action, error, command),
        text::begins_with(
            added_persistence(Seq::empty(), action, error, command),
            "failed to "@ + action + " in local Hotpath index (.hotpath/index.db): "@,
        ),
{
    let start = "failed to "@ + action + " in local Hotpath index (.hotpath/index.db): "@;
    assert(Seq::<char>::empty() + "failed to "@ + action
        + " in local Hotpath index (.hotpath/index.db): "@ =~= start);
    let whole = added_persistence(Seq::empty(), action, error, command);
    assert(whole.take(start.len() as int) =~= start);
}

} // verus!
