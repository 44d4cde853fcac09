//! Explaining a file: what the index knows of it.

pub mod diagnostics;
pub mod laws;
pub mod render;
pub mod rows;

use vstd::prelude::*;

use crate::explain::diagnostics::parse_diagnostics_json;
use crate::order;
use crate::order::{KeyPart, Ordered};
use crate::paths;
use crate::paths::native;
use crate::paths::native::{NativePath, NativePathView, NormalPath, NormalPathView};
use crate::measure::{Real, RealView};
use crate::table::TextMap;
use crate::text;

verus! {

/// Why a file cannot be explained; what the database says of it is kept in words.
#[derive(Debug, Clone, PartialEq, Eq)]
pub enum ExplainError {
    NoIndex { current_dir: String },
    OutsideIndexRoot { path: String, index_root: String },
    OpenDatabase { path: String, message: String },
    QueryDatabase(String),
    FileNotIndexed { relative_path: String },
}

/// All that is known of a file.
#[derive(Debug)]
pub struct ExplainReport {
    pub file: ExplainFile,
    pub score_unavailable_reasons: Vec<ExplainLimitation>,
    pub score: Option<ExplainScore>,
    pub terms: Vec<ExplainTerm>,
    pub raw_metrics: RawMetrics,
    pub facts: Vec<ExplainFact>,
    pub limitations: Vec<ExplainLimitation>,
    pub parser_diagnostics: Vec<ExplainLimitation>,
    pub owners: Vec<ExplainOwner>,
    pub git_context: GitContext,
    pub source_coupling: SourceCoupling,
}

/// What kind of file it is.
#[derive(Debug, Clone, PartialEq, Eq)]
pub struct ExplainFile {
    pub relative_path: String,
    pub absolute_path: String,
    pub active_scan_id: u64,
    pub language_id: Option<String>,
    pub content_kind: String,
    pub extension: Option<String>,
    pub is_generated: bool,
    pub is_vendor: bool,
    pub is_test: bool,
    pub parser_status: String,
    pub parser_recognition_attempts: u64,
}

/// How risky a file is.
#[derive(Debug, Clone, PartialEq, Eq)]
pub struct ExplainScore {
    pub formula_id: String,
    pub rank: u64,
    pub score: Real,
    pub risk_10: Real,
    pub risk_band: String,
}

/// One term of a score.
#[derive(Debug, Clone, PartialEq, Eq)]
pub struct ExplainTerm {
    pub name: String,
    pub raw_value: Option<Real>,
    pub normalized_value: Option<Real>,
    pub weight: Real,
    pub contribution: Real,
}

/// What was measured of a file.
#[derive(Debug, Clone, PartialEq, Eq)]
pub struct RawMetrics {
    pub byte_size: Option<u64>,
    pub mtime_ms: Option<u64>,
    pub line_count: Option<u64>,
    pub symbol_count: u64,
    pub function_count: u64,
    pub method_count: u64,
    pub type_count: u64,
    pub import_count: u64,
    pub complexity_pressure: Option<u64>,
    pub max_function_complexity_pressure: Option<u64>,
    pub commits_per_file: u64,
    pub total_added_lines: u64,
    pub total_deleted_lines: u64,
    pub total_churn_lines: u64,
    pub recent_added_lines: u64,
    pub recent_deleted_lines: u64,
    pub recent_churn_lines: u64,
    pub author_count: u64,
    pub first_touch_timestamp: Option<u64>,
    pub last_touch_timestamp: Option<u64>,
    pub file_age_days: Option<u64>,
    pub owner_count: Option<u64>,
    pub dominant_owner: Option<String>,
    pub dominant_owner_share: Option<Real>,
    pub co_changed_file_count: u64,
    pub source_coupling_pressure_in: Option<u64>,
    pub source_coupling_pressure_out: Option<u64>,
}

/// Something that speaks for the score.
#[derive(Debug, Clone, PartialEq, Eq)]
pub struct ExplainFact {
    pub kind: String,
    pub message: String,
}

/// Something that limits what can be said.
#[derive(Debug, Clone, PartialEq, Eq)]
pub struct ExplainLimitation {
    pub code: String,
    pub message: String,
}

/// Someone who owns a part of a file.
#[derive(Debug, Clone, PartialEq, Eq)]
pub struct ExplainOwner {
    pub rank: u64,
    pub author: String,
    pub ownership_score: Real,
    pub ownership_share: Real,
    pub touch_count: u64,
}

/// What the history says.
#[derive(Debug)]
pub struct GitContext {
    pub metadata: TextMap<String>,
    pub limitations: Vec<ExplainLimitation>,
    pub cochanges: Vec<CochangePartner>,
}

/// A file that changes together with the explained one.
#[derive(Debug, Clone, PartialEq, Eq)]
pub struct CochangePartner {
    pub path: String,
    pub co_change_count: u64,
}

/// What a file depends on, and what depends on it.
#[derive(Debug, Clone, PartialEq, Eq)]
pub struct SourceCoupling {
    pub package_path: Option<String>,
    pub inbound_count: Option<u64>,
    pub outbound_count: Option<u64>,
    pub outbound_references: Vec<SourceReference>,
    pub outbound_edges: Vec<SourceEdge>,
    pub inbound_sources: Vec<SourceEdge>,
}

/// A reference in a source.
#[derive(Debug, Clone, PartialEq, Eq)]
pub struct SourceReference {
    pub reference_index: u64,
    pub reference_kind: String,
    pub raw_target: String,
    pub resolved_package: Option<String>,
    pub is_resolved: bool,
}

/// A dependency of a file on a package.
#[derive(Debug, Clone, PartialEq, Eq)]
pub struct SourceEdge {
    pub source_path: String,
    pub source_package: String,
    pub target_package: String,
    pub reference_kind: String,
}

/// The row of a file in the index.
#[derive(Debug, Clone, PartialEq, Eq)]
pub struct FileFactsRow {
    pub file: ExplainFile,
    pub raw_metrics: RawMetrics,
    pub diagnostics: String,
}

/// The rows of the index that speak of a file.
#[derive(Debug)]
pub struct ExplainRows {
    pub file: Option<FileFactsRow>,
    pub score: Option<ExplainScore>,
    pub terms: Vec<ExplainTerm>,
    pub facts: Vec<ExplainFact>,
    pub limitations: Vec<ExplainLimitation>,
    pub owners: Vec<ExplainOwner>,
    pub metadata: TextMap<String>,
    pub cochanges: Vec<CochangePartner>,
    pub package_path: Option<String>,
    pub outbound_references: Vec<SourceReference>,
    pub outbound_edges: Vec<SourceEdge>,
    pub inbound_sources: Vec<SourceEdge>,
}

/// What the file system says paths really are, where it knows.
#[derive(Debug, Clone, PartialEq, Eq)]
pub struct CanonicalPaths {
    pub index_root: Option<NormalPath>,
    pub current_dir: Option<NormalPath>,
    pub input_path: Option<NormalPath>,
}

/// What [`ExplainReport`] stands for.
#[verifier::ext_equal]
pub struct ExplainReportView {
    pub file: ExplainFileView,
    pub score_unavailable_reasons: Seq<ExplainLimitationView>,
    pub score: Option<ExplainScoreView>,
    pub terms: Seq<ExplainTermView>,
    pub raw_metrics: RawMetricsView,
    pub facts: Seq<ExplainFactView>,
    pub limitations: Seq<ExplainLimitationView>,
    pub parser_diagnostics: Seq<ExplainLimitationView>,
    pub owners: Seq<ExplainOwnerView>,
    pub git_context: GitContextView,
    pub source_coupling: SourceCouplingView,
}

impl DeepView for ExplainReport {
    type V = ExplainReportView;

    open spec fn deep_view(&self) -> ExplainReportView {
        ExplainReportView {
            file: self.file.deep_view(),
            score_unavailable_reasons: self.score_unavailable_reasons.deep_view(),
            score: self.score.deep_view(),
            terms: self.terms.deep_view(),
            raw_metrics: self.raw_metrics.deep_view(),
            facts: self.facts.deep_view(),
            limitations: self.limitations.deep_view(),
            parser_diagnostics: self.parser_diagnostics.deep_view(),
            owners: self.owners.deep_view(),
            git_context: self.git_context.deep_view(),
            source_coupling: self.source_coupling.deep_view(),
        }
    }
}

/// What [`ExplainFile`] stands for.
#[verifier::ext_equal]
pub struct ExplainFileView {
    pub relative_path: Seq<char>,
    pub absolute_path: Seq<char>,
    pub active_scan_id: u64,
    pub language_id: Option<Seq<char>>,
    pub content_kind: Seq<char>,
    pub extension: Option<Seq<char>>,
    pub is_generated: bool,
    pub is_vendor: bool,
    pub is_test: bool,
    pub parser_status: Seq<char>,
    pub parser_recognition_attempts: u64,
}

impl DeepView for ExplainFile {
    type V = ExplainFileView;

    open spec fn deep_view(&self) -> ExplainFileView {
        ExplainFileView {
            relative_path: self.relative_path@,
            absolute_path: self.absolute_path@,
            active_scan_id: self.active_scan_id,
            language_id: self.language_id.deep_view(),
            content_kind: self.content_kind@,
            extension: self.extension.deep_view(),
            is_generated: self.is_generated,
            is_vendor: self.is_vendor,
            is_test: self.is_test,
            parser_status: self.parser_status@,
            parser_recognition_attempts: self.parser_recognition_attempts,
        }
    }
}

/// What [`ExplainScore`] stands for.
#[verifier::ext_equal]
pub struct ExplainScoreView {
    pub formula_id: Seq<char>,
    pub rank: u64,
    pub score: RealView,
    pub risk_10: RealView,
    pub risk_band: Seq<char>,
}

impl DeepView for ExplainScore {
    type V = ExplainScoreView;

    open spec fn deep_view(&self) -> ExplainScoreView {
        ExplainScoreView {
            formula_id: self.formula_id@,
            rank: self.rank,
            score: self.score.deep_view(),
            risk_10: self.risk_10.deep_view(),
            risk_band: self.risk_band@,
        }
    }
}

/// What [`ExplainTerm`] stands for.
#[verifier::ext_equal]
pub struct ExplainTermView {
    pub name: Seq<char>,
    pub raw_value: Option<RealView>,
    pub normalized_value: Option<RealView>,
    pub weight: RealView,
    pub contribution: RealView,
}

impl DeepView for ExplainTerm {
    type V = ExplainTermView;

    open spec fn deep_view(&self) -> ExplainTermView {
        ExplainTermView {
            name: self.name@,
            raw_value: self.raw_value.deep_view(),
            normalized_value: self.normalized_value.deep_view(),
            weight: self.weight.deep_view(),
            contribution: self.contribution.deep_view(),
        }
    }
}

/// What [`RawMetrics`] stands for.
#[verifier::ext_equal]
pub struct RawMetricsView {
    pub byte_size: Option<u64>,
    pub mtime_ms: Option<u64>,
    pub line_count: Option<u64>,
    pub symbol_count: u64,
    pub function_count: u64,
    pub method_count: u64,
    pub type_count: u64,
    pub import_count: u64,
    pub complexity_pressure: Option<u64>,
    pub max_function_complexity_pressure: Option<u64>,
    pub commits_per_file: u64,
    pub total_added_lines: u64,
    pub total_deleted_lines: u64,
    pub total_churn_lines: u64,
    pub recent_added_lines: u64,
    pub recent_deleted_lines: u64,
    pub recent_churn_lines: u64,
    pub author_count: u64,
    pub first_touch_timestamp: Option<u64>,
    pub last_touch_timestamp: Option<u64>,
    pub file_age_days: Option<u64>,
    pub owner_count: Option<u64>,
    pub dominant_owner: Option<Seq<char>>,
    pub dominant_owner_share: Option<RealView>,
    pub co_changed_file_count: u64,
    pub source_coupling_pressure_in: Option<u64>,
    pub source_coupling_pressure_out: Option<u64>,
}

impl DeepView for RawMetrics {
    type V = RawMetricsView;

    open spec fn deep_view(&self) -> RawMetricsView {
        RawMetricsView {
            byte_size: self.byte_size.deep_view(),
            mtime_ms: self.mtime_ms.deep_view(),
            line_count: self.line_count.deep_view(),
            symbol_count: self.symbol_count,
            function_count: self.function_count,
            method_count: self.method_count,
            type_count: self.type_count,
            import_count: self.import_count,
            complexity_pressure: self.complexity_pressure.deep_view(),
            max_function_complexity_pressure: self.max_function_complexity_pressure.deep_view(),
            commits_per_file: self.commits_per_file,
            total_added_lines: self.total_added_lines,
            total_deleted_lines: self.total_deleted_lines,
            total_churn_lines: self.total_churn_lines,
            recent_added_lines: self.recent_added_lines,
            recent_deleted_lines: self.recent_deleted_lines,
            recent_churn_lines: self.recent_churn_lines,
            author_count: self.author_count,
            first_touch_timestamp: self.first_touch_timestamp.deep_view(),
            last_touch_timestamp: self.last_touch_timestamp.deep_view(),
            file_age_days: self.file_age_days.deep_view(),
            owner_count: self.owner_count.deep_view(),
            dominant_owner: self.dominant_owner.deep_view(),
            dominant_owner_share: self.dominant_owner_share.deep_view(),
            co_changed_file_count: self.co_changed_file_count,
            source_coupling_pressure_in: self.source_coupling_pressure_in.deep_view(),
            source_coupling_pressure_out: self.source_coupling_pressure_out.deep_view(),
        }
    }
}

/// What [`ExplainFact`] stands for.
#[verifier::ext_equal]
pub struct ExplainFactView {
    pub kind: Seq<char>,
    pub message: Seq<char>,
}

impl DeepView for ExplainFact {
    type V = ExplainFactView;

    open spec fn deep_view(&self) -> ExplainFactView {
        ExplainFactView {
            kind: self.kind@,
            message: self.message@,
        }
    }
}

/// What [`ExplainLimitation`] stands for.
#[verifier::ext_equal]
pub struct ExplainLimitationView {
    pub code: Seq<char>,
    pub message: Seq<char>,
}

impl DeepView for ExplainLimitation {
    type V = ExplainLimitationView;

    open spec fn deep_view(&self) -> ExplainLimitationView {
        ExplainLimitationView {
            code: self.code@,
            message: self.message@,
        }
    }
}

/// What [`ExplainOwner`] stands for.
#[verifier::ext_equal]
pub struct ExplainOwnerView {
    pub rank: u64,
    pub author: Seq<char>,
    pub ownership_score: RealView,
    pub ownership_share: RealView,
    pub touch_count: u64,
}

impl DeepView for ExplainOwner {
    type V = ExplainOwnerView;

    open spec fn deep_view(&self) -> ExplainOwnerView {
        ExplainOwnerView {
            rank: self.rank,
            author: self.author@,
            ownership_score: self.ownership_score.deep_view(),
            ownership_share: self.ownership_share.deep_view(),
            touch_count: self.touch_count,
        }
    }
}

/// What [`GitContext`] stands for.
#[verifier::ext_equal]
pub struct GitContextView {
    pub metadata: Map<Seq<char>, Seq<char>>,
    pub limitations: Seq<ExplainLimitationView>,
    pub cochanges: Seq<CochangePartnerView>,
}

impl DeepView for GitContext {
    type V = GitContextView;

    open spec fn deep_view(&self) -> GitContextView {
        GitContextView {
            metadata: self.metadata.deep_view(),
            limitations: self.limitations.deep_view(),
            cochanges: self.cochanges.deep_view(),
        }
    }
}

/// What [`CochangePartner`] stands for.
#[verifier::ext_equal]
pub struct CochangePartnerView {
    pub path: Seq<char>,
    pub co_change_count: u64,
}

impl DeepView for CochangePartner {
    type V = CochangePartnerView;

    open spec fn deep_view(&self) -> CochangePartnerView {
        CochangePartnerView {
            path: self.path@,
            co_change_count: self.co_change_count,
        }
    }
}

/// What [`SourceCoupling`] stands for.
#[verifier::ext_equal]
pub struct SourceCouplingView {
    pub package_path: Option<Seq<char>>,
    pub inbound_count: Option<u64>,
    pub outbound_count: Option<u64>,
    pub outbound_references: Seq<SourceReferenceView>,
    pub outbound_edges: Seq<SourceEdgeView>,
    pub inbound_sources: Seq<SourceEdgeView>,
}

impl DeepView for SourceCoupling {
    type V = SourceCouplingView;

    open spec fn deep_view(&self) -> SourceCouplingView {
        SourceCouplingView {
            package_path: self.package_path.deep_view(),
            inbound_count: self.inbound_count.deep_view(),
            outbound_count: self.outbound_count.deep_view(),
            outbound_references: self.outbound_references.deep_view(),
            outbound_edges: self.outbound_edges.deep_view(),
            inbound_sources: self.inbound_sources.deep_view(),
        }
    }
}

/// What [`SourceReference`] stands for.
#[verifier::ext_equal]
pub struct SourceReferenceView {
    pub reference_index: u64,
    pub reference_kind: Seq<char>,
    pub raw_target: Seq<char>,
    pub resolved_package: Option<Seq<char>>,
    pub is_resolved: bool,
}

impl DeepView for SourceReference {
    type V = SourceReferenceView;

    open spec fn deep_view(&self) -> SourceReferenceView {
        SourceReferenceView {
            reference_index: self.reference_index,
            reference_kind: self.reference_kind@,
            raw_target: self.raw_target@,
            resolved_package: self.resolved_package.deep_view(),
            is_resolved: self.is_resolved,
        }
    }
}

/// What [`SourceEdge`] stands for.
#[verifier::ext_equal]
pub struct SourceEdgeView {
    pub source_path: Seq<char>,
    pub source_package: Seq<char>,
    pub target_package: Seq<char>,
    pub reference_kind: Seq<char>,
}

impl DeepView for SourceEdge {
    type V = SourceEdgeView;

    open spec fn deep_view(&self) -> SourceEdgeView {
        SourceEdgeView {
            source_path: self.source_path@,
            source_package: self.source_package@,
            target_package: self.target_package@,
            reference_kind: self.reference_kind@,
        }
    }
}

/// What [`FileFactsRow`] stands for.
#[verifier::ext_equal]
pub struct FileFactsRowView {
    pub file: ExplainFileView,
    pub raw_metrics: RawMetricsView,
    pub diagnostics: Seq<char>,
}

impl DeepView for FileFactsRow {
    type V = FileFactsRowView;

    open spec fn deep_view(&self) -> FileFactsRowView {
        FileFactsRowView {
            file: self.file.deep_view(),
            raw_metrics: self.raw_metrics.deep_view(),
            diagnostics: self.diagnostics@,
        }
    }
}

/// What [`ExplainRows`] stands for.
#[verifier::ext_equal]
pub struct ExplainRowsView {
    pub file: Option<FileFactsRowView>,
    pub score: Option<ExplainScoreView>,
    pub terms: Seq<ExplainTermView>,
    pub facts: Seq<ExplainFactView>,
    pub limitations: Seq<ExplainLimitationView>,
    pub owners: Seq<ExplainOwnerView>,
    pub metadata: Map<Seq<char>, Seq<char>>,
    pub cochanges: Seq<CochangePartnerView>,
    pub package_path: Option<Seq<char>>,
    pub outbound_references: Seq<SourceReferenceView>,
    pub outbound_edges: Seq<SourceEdgeView>,
    pub inbound_sources: Seq<SourceEdgeView>,
}

impl DeepView for ExplainRows {
    type V = ExplainRowsView;

    open spec fn deep_view(&self) -> ExplainRowsView {
        ExplainRowsView {
            file: self.file.deep_view(),
            score: self.score.deep_view(),
            terms: self.terms.deep_view(),
            facts: self.facts.deep_view(),
            limitations: self.limitations.deep_view(),
            owners: self.owners.deep_view(),
            metadata: self.metadata.deep_view(),
            cochanges: self.cochanges.deep_view(),
            package_path: self.package_path.deep_view(),
            outbound_references: self.outbound_references.deep_view(),
            outbound_edges: self.outbound_edges.deep_view(),
            inbound_sources: self.inbound_sources.deep_view(),
        }
    }
}

/// What [`CanonicalPaths`] stands for.
#[verifier::ext_equal]
pub struct CanonicalPathsView {
    pub index_root: Option<NormalPathView>,
    pub current_dir: Option<NormalPathView>,
    pub input_path: Option<NormalPathView>,
}

impl DeepView for CanonicalPaths {
    type V = CanonicalPathsView;

    open spec fn deep_view(&self) -> CanonicalPathsView {
        CanonicalPathsView {
            index_root: self.index_root.deep_view(),
            current_dir: self.current_dir.deep_view(),
            input_path: self.input_path.deep_view(),
        }
    }
}

/// What an [`ExplainError`] stands for.
#[verifier::ext_equal]
pub enum ExplainErrorView {
    NoIndex { current_dir: Seq<char> },
    OutsideIndexRoot { path: Seq<char>, index_root: Seq<char> },
    OpenDatabase { path: Seq<char>, message: Seq<char> },
    QueryDatabase(Seq<char>),
    FileNotIndexed { relative_path: Seq<char> },
}

impl DeepView for ExplainError {
    type V = ExplainErrorView;

    open spec fn deep_view(&self) -> ExplainErrorView {
        match self {
            ExplainError::NoIndex { current_dir } => ExplainErrorView::NoIndex { current_dir: current_dir@ },
            ExplainError::OutsideIndexRoot { path, index_root } => ExplainErrorView::OutsideIndexRoot { path: path@, index_root: index_root@ },
            ExplainError::OpenDatabase { path, message } => ExplainErrorView::OpenDatabase { path: path@, message: message@ },
            ExplainError::QueryDatabase(inner) => ExplainErrorView::QueryDatabase(inner@),
            ExplainError::FileNotIndexed { relative_path } => ExplainErrorView::FileNotIndexed { relative_path: relative_path@ },
        }
    }
}

impl ExplainErrorView {
    /// The error in words.
    pub open spec fn words(self) -> Seq<char> {
        match self {
            ExplainErrorView::NoIndex { current_dir } => "no Hotpath index found from '"@
                + current_dir + "'. Run hotpath scan first."@,
            ExplainErrorView::OutsideIndexRoot { path, index_root } => "path '"@ + path
                + "' is outside indexed repository '"@ + index_root + "'"@,
            ExplainErrorView::OpenDatabase { path, message } => "failed to open Hotpath index '"@
                + path + "': "@ + message,
            ExplainErrorView::QueryDatabase(message) => "failed to read Hotpath explain data: "@
                + message,
            ExplainErrorView::FileNotIndexed { relative_path } => "file '"@ + relative_path
                + "' is not in the current Hotpath index. Run hotpath scan first."@,
        }
    }
}

impl ExplainError {
    /// The error in words.
    pub fn message(&self) -> (out: String)
        ensures
            out@ == self.deep_view().words(),
    {
        match self {
            ExplainError::NoIndex { current_dir } => {
                let mut out = "no Hotpath index found from '".to_string();
                out.append(current_dir.as_str());
                out.append("'. Run hotpath scan first.");
                out
            },
            ExplainError::OutsideIndexRoot { path, index_root } => {
                let mut out = "path '".to_string();
                out.append(path.as_str());
                out.append("' is outside indexed repository '");
                out.append(index_root.as_str());
                out.append("'");
                out
            },
            ExplainError::OpenDatabase { path, message } => {
                let mut out = "failed to open Hotpath index '".to_string();
                out.append(path.as_str());
                out.append("': ");
                out.append(message.as_str());
                out
            },
            ExplainError::QueryDatabase(message) => {
                let mut out = "failed to read Hotpath explain data: ".to_string();
                out.append(message.as_str());
                out
            },
            ExplainError::FileNotIndexed { relative_path } => {
                let mut out = "file '".to_string();
                out.append(relative_path.as_str());
                out.append("' is not in the current Hotpath index. Run hotpath scan first.");
                out
            },
        }
    }
}

/// A count as the database keeps it: a negative one counts as none.
pub open spec fn counted(value: i64) -> u64 {
    if value < 0 {
        0
    } else {
        value as u64
    }
}

/// A count as the database keeps it: a negative one counts as none.
pub fn i64_to_u64(value: i64) -> (n: u64)
    ensures
        n == counted(value),
{
    if value < 0 {
        0
    } else {
        value as u64
    }
}

/// A count as the database keeps it, where it keeps one.
pub fn optional_i64_to_u64(value: Option<i64>) -> (n: Option<u64>)
    ensures
        n == (match value {
            Some(value) => Some(counted(value)),
            None => None,
        }),
{
    match value {
        Some(value) => Some(i64_to_u64(value)),
        None => None,
    }
}

/// The rank of an owner, counted from one.
pub fn owner_rank(value: i64) -> (n: u64)
    ensures
        n == counted(value) + 1,
{
    i64_to_u64(value) + 1
}

fn limitation(code: &str, message: &str) -> (out: ExplainLimitation)
    ensures
        out.deep_view() == (ExplainLimitationView { code: code@, message: message@ }),
{
    ExplainLimitation { code: code.to_string(), message: message.to_string() }
}

/// Why a file has no score.
pub open spec fn missing_score_reasons(
    file: ExplainFileView,
    metrics: RawMetricsView,
) -> Seq<ExplainLimitationView> {
    let language = if file.language_id != Some("go"@) {
        seq![
            ExplainLimitationView {
                code: "unsupported_language"@,
                message: "Only active Go files currently receive Go file risk scores."@,
            },
        ]
    } else {
        Seq::empty()
    };
    let excluded = if file.is_generated || file.is_vendor {
        seq![
            ExplainLimitationView {
                code: "generated_or_vendor_excluded"@,
                message: "Generated and vendor Go files are excluded from file risk scoring."@,
            },
        ]
    } else {
        Seq::empty()
    };
    let unmeasured = if metrics.complexity_pressure is None
        && metrics.max_function_complexity_pressure is None {
        seq![
            ExplainLimitationView {
                code: "missing_parser_metrics"@,
                message: "Parser-derived Go complexity metrics are unavailable."@,
            },
        ]
    } else {
        Seq::empty()
    };
    let reasons = language + excluded + unmeasured;
    if reasons.len() == 0 {
        seq![
            ExplainLimitationView {
                code: "missing_score_row"@,
                message: "No file risk score row exists for this indexed file."@,
            },
        ]
    } else {
        reasons
    }
}

/// Why a file has no score.
pub fn score_unavailable_reasons(file: &ExplainFile, metrics: &RawMetrics) -> (out: Vec<
    ExplainLimitation,
>)
    ensures
        out.deep_view() == missing_score_reasons(file.deep_view(), metrics.deep_view()),
        out.len() > 0,
{
    let mut out: Vec<ExplainLimitation> = Vec::new();
    let is_go = match &file.language_id {
        Some(language) => text::same(language.as_str(), "go"),
        None => false,
    };
    if !is_go {
        out.push(
            limitation(
                "unsupported_language",
                "Only active Go files currently receive Go file risk scores.",
            ),
        );
    }
    if file.is_generated || file.is_vendor {
        out.push(
            limitation(
                "generated_or_vendor_excluded",
                "Generated and vendor Go files are excluded from file risk scoring.",
            ),
        );
    }
    if metrics.complexity_pressure.is_none() && metrics.max_function_complexity_pressure.is_none() {
        out.push(
            limitation(
                "missing_parser_metrics",
                "Parser-derived Go complexity metrics are unavailable.",
            ),
        );
    }
    if out.len() == 0 {
        out.push(
            limitation(
                "missing_score_row",
                "No file risk score row exists for this indexed file.",
            ),
        );
    }
    assert(out.deep_view() =~= missing_score_reasons(file.deep_view(), metrics.deep_view()));
    out
}

/// The limitation that an entry of the metadata gives, where there is one.
pub open spec fn metadata_limitation(
    metadata: Map<Seq<char>, Seq<char>>,
    key: Seq<char>,
    code: Seq<char>,
) -> Seq<ExplainLimitationView> {
    if metadata.dom().contains(key) {
        seq![ExplainLimitationView { code, message: metadata[key] }]
    } else {
        Seq::empty()
    }
}

/// The limitations that the metadata of the history give.
pub open spec fn history_limitations(metadata: Map<Seq<char>, Seq<char>>) -> Seq<
    ExplainLimitationView,
> {
    metadata_limitation(metadata, "git_diagnostic_message"@, "git_diagnostic"@)
        + metadata_limitation(metadata, "git_merge_heavy_warning"@, "git_merge_heavy"@)
        + metadata_limitation(metadata, "git_broad_commit_warning"@, "git_broad_commit"@)
        + metadata_limitation(
        metadata,
        "git_author_concentration_warning"@,
        "git_author_concentration"@,
    )
}

fn push_metadata_limitation(
    out: &mut Vec<ExplainLimitation>,
    metadata: &TextMap<String>,
    key: &str,
    code: &str,
)
    requires
        metadata.wf(),
    ensures
        final(out).deep_view() == old(out).deep_view() + metadata_limitation(
            metadata.deep_view(),
            key@,
            code@,
        ),
{
    let ghost before = out.deep_view();
    if let Some(message) = metadata.get(key) {
        out.push(limitation(code, message.as_str()));
    }
    assert(out.deep_view() =~= before + metadata_limitation(metadata.deep_view(), key@, code@));
}

/// The limitations that the metadata of the history give.
pub fn git_limitations(metadata: &TextMap<String>) -> (out: Vec<ExplainLimitation>)
    requires
        metadata.wf(),
    ensures
        out.deep_view() == history_limitations(metadata.deep_view()),
{
    let mut out: Vec<ExplainLimitation> = Vec::new();
    push_metadata_limitation(&mut out, metadata, "git_diagnostic_message", "git_diagnostic");
    push_metadata_limitation(&mut out, metadata, "git_merge_heavy_warning", "git_merge_heavy");
    push_metadata_limitation(&mut out, metadata, "git_broad_commit_warning", "git_broad_commit");
    push_metadata_limitation(
        &mut out,
        metadata,
        "git_author_concentration_warning",
        "git_author_concentration",
    );
    assert(out.deep_view() =~= history_limitations(metadata.deep_view()));
    out
}

/// Whether an entry of the metadata speaks of the history or of dependencies.
pub open spec fn is_context_key(key: Seq<char>) -> bool {
    text::begins_with(key, "git_"@) || text::begins_with(key, "source_dependency_"@)
}

/// Those entries of the metadata that speak of the history or of dependencies.
pub open spec fn context_metadata(metadata: Map<Seq<char>, Seq<char>>) -> Map<
    Seq<char>,
    Seq<char>,
> {
    Map::new(
        |key: Seq<char>| metadata.dom().contains(key) && is_context_key(key),
        |key: Seq<char>| metadata[key],
    )
}

/// Those entries of the metadata that speak of the history or of dependencies.
pub fn git_metadata(metadata: &TextMap<String>) -> (out: TextMap<String>)
    requires
        metadata.wf(),
    ensures
        out.wf(),
        out.deep_view() == context_metadata(metadata.deep_view()),
{
    let ghost keys = metadata.keys.deep_view();
    let mut out: TextMap<String> = TextMap::new();
    let mut i: usize = 0;
    while i < metadata.keys.len()
        invariant
            i <= metadata.keys.len(),
            metadata.wf(),
            keys == metadata.keys.deep_view(),
            out.wf(),
            forall|key: Seq<char>| #[trigger]
                out@.dom().contains(key) <==> keys.take(i as int).contains(key) && is_context_key(
                    key,
                ),
            forall|key: Seq<char>| #[trigger]
                out@.dom().contains(key) ==> out@[key]@ == metadata@[key]@,
        decreases metadata.keys.len() - i,
    {
        let key = metadata.keys[i].as_str();
        let ghost before = out@;
        let ghost shorter = keys.take(i as int);
        let ghost longer = keys.take(i + 1);
        proof {
            metadata.at_index(i as int);
            assert(keys[i as int] == key@);
            assert(longer =~= shorter.push(key@));
            assert forall|k: Seq<char>| #[trigger] longer.contains(k) <==> (shorter.contains(k) || k
                == key@) by {
                if shorter.contains(k) {
                    let n = choose|n: int| 0 <= n < shorter.len() && shorter[n] == k;
                    assert(longer[n] == k);
                }
                if k == key@ {
                    assert(longer[i as int] == k);
                }
                if longer.contains(k) {
                    let n = choose|n: int| 0 <= n < longer.len() && longer[n] == k;
                    if n < i {
                        assert(shorter[n] == k);
                    }
                }
            }
        }
        if text::starts_with(key, "git_") || text::starts_with(key, "source_dependency_") {
            out.insert(key, metadata.values[i].clone());
        }
        proof {
            assert forall|k: Seq<char>| #[trigger] out@.dom().contains(k) <==> longer.contains(k)
                && is_context_key(k) by {
                assert(before.dom().contains(k) <==> shorter.contains(k) && is_context_key(k));
            }
            assert forall|k: Seq<char>| #[trigger]
                out@.dom().contains(k) implies out@[k]@ == metadata@[k]@ by {
                if k != key@ {
                    assert(before.dom().contains(k));
                } else {
                    assert(longer.contains(k));
                }
            }
        }
        i = i + 1;
    }
    proof {
        assert(keys.take(i as int) =~= keys);
        assert forall|k: Seq<char>| #[trigger] out.deep_view().dom().contains(k) <==> context_metadata(
            metadata.deep_view(),
        ).dom().contains(k) by {
            assert(out@.dom().contains(k) <==> keys.contains(k) && is_context_key(k));
        }
        assert forall|k: Seq<char>| #[trigger]
            out.deep_view().dom().contains(k) implies out.deep_view()[k] == context_metadata(
            metadata.deep_view(),
        )[k] by {
            assert(out@.dom().contains(k));
        }
        assert(out.deep_view() =~= context_metadata(metadata.deep_view()));
    }
    out
}

/// The entry of the metadata that names the preferred formula.
pub const PREFERRED_FORMULA_KEY: &'static str = "file_risk_formula_id";

impl Ordered for ExplainScore {
    /// Scores are ordered by their formula.
    open spec fn key(v: ExplainScoreView) -> Seq<KeyPart> {
        seq![KeyPart::Text(v.formula_id)]
    }

    fn comes_before(&self, other: &Self) -> (r: bool) {
        proof {
            reveal_with_fuel(order::key_lt_from, 2);
        }
        text::precedes(self.formula_id.as_str(), other.formula_id.as_str())
    }
}

/// Whether a score is one by `formula_id`.
pub open spec fn is_by_formula(formula_id: Seq<char>) -> spec_fn(ExplainScoreView) -> bool {
    |score: ExplainScoreView| score.formula_id == formula_id
}

/// The score of a file that counts: where a formula is preferred, the one by it, else the one by
/// the first formula.
pub open spec fn chosen_score(rows: Seq<ExplainScoreView>, preferred: Option<Seq<char>>) -> Option<
    ExplainScoreView,
> {
    let candidates = match preferred {
        Some(formula_id) => rows.filter(is_by_formula(formula_id)),
        None => order::sorted_by(rows, order::by_key::<ExplainScore>()),
    };
    if candidates.len() > 0 {
        Some(candidates[0])
    } else {
        None
    }
}

/// The score of a file that counts, among all that it has.
pub fn load_score(rows: Vec<ExplainScore>, preferred_formula_id: Option<&str>) -> (out: Option<
    ExplainScore,
>)
    ensures
        out.deep_view() == chosen_score(
            rows.deep_view(),
            (match preferred_formula_id {
                Some(formula_id) => Some(formula_id@),
                None => None,
            }),
        ),
{
    let formula_id = match preferred_formula_id {
        None => {
            let mut sorted = order::sort(rows);
            if sorted.len() == 0 {
                return None;
            }
            assert(sorted.deep_view()[0] == sorted@[0].deep_view());
            return Some(sorted.remove(0));
        },
        Some(formula_id) => formula_id,
    };
    let ghost all = rows.deep_view();
    let mut scores = rows;
    let ghost keep = is_by_formula(formula_id@);
    let mut i: usize = 0;
    proof {
        reveal(Seq::filter);
        assert(all.take(0).filter(keep).len() == 0);
    }
    while i < scores.len()
        invariant
            i <= scores.len(),
            all == rows.deep_view(),
            all == scores.deep_view(),
            preferred_formula_id == Some(formula_id),
            keep == is_by_formula(formula_id@),
            all.take(i as int).filter(keep).len() == 0,
        decreases scores.len() - i,
    {
        let ghost shorter = all.take(i as int);
        let ghost longer = all.take(i + 1);
        proof {
            reveal(Seq::filter);
            assert(longer.drop_last() =~= shorter);
            assert(longer.last() == scores@[i as int].deep_view());
        }
        if text::same(scores[i].formula_id.as_str(), formula_id) {
            proof {
                assert(longer + all.skip(i + 1) =~= all);
                Seq::filter_distributes_over_add(longer, all.skip(i + 1), keep);
                assert(longer.filter(keep) =~= shorter.filter(keep).push(longer.last()));
                assert(all.filter(keep) =~= longer.filter(keep) + all.skip(i + 1).filter(keep));
                assert(all.filter(keep)[0] == longer.last());
            }
            return Some(scores.remove(i));
        }
        i = i + 1;
    }
    assert(all.take(i as int) =~= all);
    None
}

/// A preferred formula decides alone: what is scored by others only has no score. Without one, a
/// file with any score has the one whose formula no other precedes.
pub proof fn the_formula_decides_the_score(
    rows: Seq<ExplainScoreView>,
    preferred: Option<Seq<char>>,
)
    ensures
        match chosen_score(rows, preferred) {
            Some(score) => rows.contains(score) && (match preferred {
                Some(formula_id) => score.formula_id == formula_id,
                None => forall|i: int|
                    0 <= i < rows.len() ==> !text::text_lt(
                        (#[trigger] rows[i]).formula_id,
                        score.formula_id,
                    ),
            }),
            None => match preferred {
                Some(formula_id) => forall|i: int|
                    0 <= i < rows.len() ==> (#[trigger] rows[i]).formula_id != formula_id,
                None => rows.len() == 0,
            },
        },
{
    match preferred {
        Some(formula_id) => {
            let keep = is_by_formula(formula_id);
            let kept = rows.filter(keep);
            rows.filter_lemma(keep);
            if kept.len() > 0 {
                assert(kept.contains(kept[0]));
                rows.lemma_filter_contains_rev(keep, kept[0]);
            } else {
                assert forall|i: int| 0 <= i < rows.len() implies (#[trigger] rows[i]).formula_id
                    != formula_id by {
                    if keep(rows[i]) {
                        assert(kept.contains(rows[i]));
                    }
                }
            }
        },
        None => {
            let lt = order::by_key::<ExplainScore>();
            let sorted = order::sorted_by(rows, lt);
            order::by_key_is_strict_weak::<ExplainScore>();
            order::sorted_by_permutes(rows, lt);
            order::sorted_by_is_sorted(rows, lt);
            reveal_with_fuel(order::key_lt_from, 2);
            if sorted.len() > 0 {
                assert(sorted.contains(sorted[0]));
                order::contains_by_multiset(sorted, rows, sorted[0]);
                assert forall|i: int| 0 <= i < rows.len() implies !text::text_lt(
                    (#[trigger] rows[i]).formula_id,
                    sorted[0].formula_id,
                ) by {
                    assert(rows.contains(rows[i]));
                    order::contains_by_multiset(rows, sorted, rows[i]);
                    let k = choose|k: int| 0 <= k < sorted.len() && sorted[k] == rows[i];
                    let (x, y) = (ExplainScore::key(sorted[k]), ExplainScore::key(sorted[0]));
                    assert(!lt(sorted[k], sorted[0]));
                    assert(lt(sorted[k], sorted[0]) == order::key_lt_from(x, y, 0));
                    assert(x[0] == KeyPart::Text(sorted[k].formula_id));
                    assert(y[0] == KeyPart::Text(sorted[0].formula_id));
                }
            }
        },
    }
}

/// How many files that changed together with a file are named.
pub const COCHANGE_LIMIT: usize = 10;

impl Ordered for CochangePartner {
    /// Files are ordered by the number of common commits, most first, then by path.
    open spec fn key(v: CochangePartnerView) -> Seq<KeyPart> {
        seq![KeyPart::Number(-(v.co_change_count as int)), KeyPart::Text(v.path)]
    }

    fn comes_before(&self, other: &Self) -> (r: bool) {
        proof {
            reveal_with_fuel(order::key_lt_from, 3);
        }
        if self.co_change_count != other.co_change_count {
            return self.co_change_count > other.co_change_count;
        }
        text::precedes(self.path.as_str(), other.path.as_str())
    }
}

/// The files that most often changed together with a file, most often first.
pub open spec fn ranked_cochanges(rows: Seq<CochangePartnerView>) -> Seq<CochangePartnerView> {
    let ranked = order::sorted_by(rows, order::by_key::<CochangePartner>());
    if ranked.len() > COCHANGE_LIMIT {
        ranked.take(COCHANGE_LIMIT as int)
    } else {
        ranked
    }
}

/// The files that most often changed together with a file, most often first.
pub fn load_cochanges(rows: Vec<CochangePartner>) -> (out: Vec<CochangePartner>)
    ensures
        out.deep_view() == ranked_cochanges(rows.deep_view()),
{
    let mut out = order::sort(rows);
    if out.len() > COCHANGE_LIMIT {
        let ghost before = out.deep_view();
        out.truncate(COCHANGE_LIMIT);
        assert(out.deep_view() =~= before.take(COCHANGE_LIMIT as int));
    }
    out
}

/// What is listed of something that may be missing: nothing, where it is.
pub open spec fn listed_where<A>(present: bool, list: Seq<A>) -> Seq<A> {
    if present {
        list
    } else {
        Seq::empty()
    }
}

fn list_where<T: DeepView>(present: bool, list: Vec<T>) -> (out: Vec<T>)
    ensures
        out.deep_view() == listed_where(present, list.deep_view()),
{
    if present {
        list
    } else {
        let none: Vec<T> = Vec::new();
        assert(none.deep_view() =~= Seq::<T::V>::empty());
        none
    }
}

/// The report on a file, by the rows of the index that speak of it: terms, facts and
/// limitations belong to a score, and sources that lead in belong to a package.
pub open spec fn report_of(relative_path: Seq<char>, rows: ExplainRowsView) -> Result<
    ExplainReportView,
    ExplainErrorView,
> {
    match rows.file {
        None => Err(ExplainErrorView::FileNotIndexed { relative_path }),
        Some(row) => Ok(
            ExplainReportView {
                file: row.file,
                score_unavailable_reasons: match rows.score {
                    Some(_) => Seq::empty(),
                    None => missing_score_reasons(row.file, row.raw_metrics),
                },
                score: rows.score,
                terms: listed_where(rows.score is Some, rows.terms),
                raw_metrics: row.raw_metrics,
                facts: listed_where(rows.score is Some, rows.facts),
                limitations: listed_where(rows.score is Some, rows.limitations),
                parser_diagnostics: diagnostics::diagnostics_of(
                    diagnostics::json_items(row.diagnostics),
                ),
                owners: rows.owners,
                git_context: GitContextView {
                    metadata: context_metadata(rows.metadata),
                    limitations: history_limitations(rows.metadata),
                    cochanges: ranked_cochanges(rows.cochanges),
                },
                source_coupling: SourceCouplingView {
                    package_path: rows.package_path,
                    inbound_count: row.raw_metrics.source_coupling_pressure_in,
                    outbound_count: row.raw_metrics.source_coupling_pressure_out,
                    outbound_references: rows.outbound_references,
                    outbound_edges: rows.outbound_edges,
                    inbound_sources: listed_where(
                        rows.package_path is Some,
                        rows.inbound_sources,
                    ),
                },
            },
        ),
    }
}

/// A file has a report where the index has a row of it, scored or not. The report says why there is
/// no score exactly where there is none, and then has no terms, facts or limitations of one.
pub proof fn reports_say_why_a_score_is_missing(relative_path: Seq<char>, rows: ExplainRowsView)
    ensures
        match report_of(relative_path, rows) {
            Ok(report) => {
                &&& rows.file is Some
                &&& report.score == rows.score
                &&& report.score_unavailable_reasons.len() == 0 <==> report.score is Some
                &&& report.score is None ==> report.terms.len() == 0 && report.facts.len() == 0
                    && report.limitations.len() == 0
            },
            Err(fault) => rows.file is None && fault == (ExplainErrorView::FileNotIndexed {
                relative_path,
            }),
        },
{
}

/// No more files are named than the limit, none of them before one with more common commits, and
/// those with as many by path.
pub proof fn cochanges_are_few_and_ranked(rows: Seq<CochangePartnerView>)
    ensures
        ranked_cochanges(rows).len() <= COCHANGE_LIMIT,
        forall|i: int, j: int|
            0 <= i < j < ranked_cochanges(rows).len() ==> {
                let (a, b) = (
                    #[trigger] ranked_cochanges(rows)[i],
                    #[trigger] ranked_cochanges(rows)[j],
                );
                a.co_change_count > b.co_change_count || (a.co_change_count == b.co_change_count
                    && !text::text_lt(b.path, a.path))
            },
{
    let lt = order::by_key::<CochangePartner>();
    order::by_key_is_strict_weak::<CochangePartner>();
    order::sorted_by_is_sorted(rows, lt);
    reveal_with_fuel(order::key_lt_from, 3);
    let ranked = order::sorted_by(rows, lt);
    let few = ranked_cochanges(rows);
    assert forall|i: int, j: int| 0 <= i < j < few.len() implies {
        let (a, b) = (#[trigger] few[i], #[trigger] few[j]);
        a.co_change_count > b.co_change_count || (a.co_change_count == b.co_change_count
            && !text::text_lt(b.path, a.path))
    } by {
        let (a, b) = (ranked[i], ranked[j]);
        assert(few[i] == a && few[j] == b);
        assert(!lt(b, a));
        let (x, y) = (CochangePartner::key(a), CochangePartner::key(b));
        assert(lt(b, a) == order::key_lt_from(y, x, 0));
        assert(x[0] == KeyPart::Number(-(a.co_change_count as int)));
        assert(y[0] == KeyPart::Number(-(b.co_change_count as int)));
        assert(x[1] == KeyPart::Text(a.path) && y[1] == KeyPart::Text(b.path));
    }
}

/// The report on a file, by the rows of the index that speak of it.
pub fn explain_report_from_rows(relative_path: &str, rows: ExplainRows) -> (out: Result<
    ExplainReport,
    ExplainError,
>)
    requires
        rows.metadata.wf(),
    ensures
        match out {
            Ok(report) => report_of(relative_path@, rows.deep_view()) == Ok::<
                ExplainReportView,
                ExplainErrorView,
            >(report.deep_view()) && report.git_context.metadata.wf(),
            Err(fault) => report_of(relative_path@, rows.deep_view()) == Err::<
                ExplainReportView,
                ExplainErrorView,
            >(fault.deep_view()),
        },
{
    let row = match rows.file {
        Some(row) => row,
        None => return Err(
            ExplainError::FileNotIndexed { relative_path: relative_path.to_string() },
        ),
    };
    let scored = rows.score.is_some();
    let packaged = rows.package_path.is_some();
    let reasons: Vec<ExplainLimitation> = if scored {
        Vec::new()
    } else {
        score_unavailable_reasons(&row.file, &row.raw_metrics)
    };
    assert(rows.score is Some ==> reasons.deep_view() =~= Seq::<ExplainLimitationView>::empty());
    let parser_diagnostics = parse_diagnostics_json(row.diagnostics.as_str());
    let metadata = git_metadata(&rows.metadata);
    let limitations = git_limitations(&rows.metadata);
    let inbound_count: Option<u64> = row.raw_metrics.source_coupling_pressure_in;
    let outbound_count: Option<u64> = row.raw_metrics.source_coupling_pressure_out;
    Ok(
        ExplainReport {
            file: row.file,
            score_unavailable_reasons: reasons,
            score: rows.score,
            terms: list_where(scored, rows.terms),
            raw_metrics: row.raw_metrics,
            facts: list_where(scored, rows.facts),
            limitations: list_where(scored, rows.limitations),
            parser_diagnostics,
            owners: rows.owners,
            git_context: GitContext {
                metadata,
                limitations,
                cochanges: load_cochanges(rows.cochanges),
            },
            source_coupling: SourceCoupling {
                package_path: rows.package_path,
                inbound_count,
                outbound_count,
                outbound_references: rows.outbound_references,
                outbound_edges: rows.outbound_edges,
                inbound_sources: list_where(packaged, rows.inbound_sources),
            },
        },
    )
}

/// A path as the file system knows it, else in its normal form.
pub open spec fn known(canonical: Option<NormalPathView>, path: NativePathView) -> NormalPathView {
    match canonical {
        Some(canonical) => canonical,
        None => native::normal(path),
    }
}

fn known_path(canonical: &Option<NormalPath>, path: &NativePath) -> (out: NormalPath)
    ensures
        out.deep_view() == known(canonical.deep_view(), path.deep_view()),
{
    match canonical {
        Some(canonical) => canonical.duplicate(),
        None => native::lexically_normalize(path),
    }
}

/// The path of a file below the root of the index.
pub open spec fn path_in_index(
    index_root: NativePathView,
    current_dir: NativePathView,
    input_path: NativePathView,
    canonical: CanonicalPathsView,
) -> Result<Seq<char>, ExplainErrorView> {
    let root = known(canonical.index_root, index_root);
    let absolute = if input_path.absolute {
        known(canonical.input_path, input_path)
    } else {
        native::normal_from(known(canonical.current_dir, current_dir), input_path)
    };
    let outside = ExplainErrorView::OutsideIndexRoot {
        path: input_path.text,
        index_root: index_root.text,
    };
    match native::remainder(root, absolute) {
        None => Err(outside),
        Some(rest) => if native::names_shown(rest).len() == 0 {
            Err(outside)
        } else {
            Ok(native::names_shown(rest))
        },
    }
}

/// The path of a file below the root of the index.
pub fn normalize_index_relative_path(
    index_root: &NativePath,
    current_dir: &NativePath,
    input_path: &NativePath,
    canonical: &CanonicalPaths,
) -> (out: Result<String, ExplainError>)
    ensures
        match out {
            Ok(path) => path_in_index(
                index_root.deep_view(),
                current_dir.deep_view(),
                input_path.deep_view(),
                canonical.deep_view(),
            ) == Ok::<Seq<char>, ExplainErrorView>(path@),
            Err(fault) => path_in_index(
                index_root.deep_view(),
                current_dir.deep_view(),
                input_path.deep_view(),
                canonical.deep_view(),
            ) == Err::<Seq<char>, ExplainErrorView>(fault.deep_view()),
        },
{
    let root = known_path(&canonical.index_root, index_root);
    let absolute = if input_path.absolute {
        known_path(&canonical.input_path, input_path)
    } else {
        native::normalize_from(&known_path(&canonical.current_dir, current_dir), input_path)
    };
    if let Some(rest) = native::strip_root(&root, &absolute) {
        let relative = native::path_to_index_string(&rest);
        if !relative.as_str().is_empty() {
            return Ok(relative);
        }
    }
    Err(
        ExplainError::OutsideIndexRoot {
            path: input_path.text.clone(),
            index_root: index_root.text.clone(),
        },
    )
}

} // verus!
