//! A scan in short: how far it can be relied on, how risky the project is, and what is put out.

pub mod laws;

use vstd::prelude::*;

use crate::calendar;
use crate::measure;
use crate::measure::{Real, RealView};
use crate::text;

verus! {

pub const SCAN_JSON_SCHEMA_VERSION: u64 = 1;

/// What is known of the history while a scan runs.
#[derive(Debug, Clone, PartialEq, Eq)]
pub struct GitStatus {
    pub confidence: Option<String>,
    pub index_action: Option<String>,
}

/// How far a scan has come.
#[derive(Debug, Clone, PartialEq, Eq)]
pub struct PipelineState {
    pub git_status: GitStatus,
    pub git_skipped: bool,
    pub elapsed_ms: u64,
    pub total_files: Option<u64>,
    pub enumerated_files: u64,
    pub analyzed_files: u64,
    pub git_commits_processed: u64,
    pub total_git_commits: Option<u64>,
}

/// How risky a project is.
#[derive(Debug, Clone, PartialEq, Eq)]
pub struct ProjectSummary {
    pub confidence: String,
    pub risk_10: Real,
    pub risk_band: String,
    pub dominant_dimension: Option<String>,
}

/// One of the riskiest files.
#[derive(Debug, Clone, PartialEq, Eq)]
pub struct HotspotSummary {
    pub rank: u64,
    pub relative_path: String,
    pub risk_10: Real,
    pub risk_band: String,
    pub fact: Option<String>,
}

/// Something that limits what a scan says.
#[derive(Debug, Clone, PartialEq, Eq)]
pub struct LimitationSummary {
    pub code: String,
    pub message: String,
}

/// What a scan has found.
#[derive(Debug, Clone, PartialEq, Eq)]
pub struct ScanSummary {
    pub project: Option<ProjectSummary>,
    pub hotspots: Vec<HotspotSummary>,
    pub limitations: Vec<LimitationSummary>,
}

/// How many files are in each band of risk.
#[derive(Debug, Clone, Copy, PartialEq, Eq, Structural)]
pub struct BandCounts {
    pub extreme: u64,
    pub high: u64,
    pub medium: u64,
    pub low: u64,
}

/// What drives the risk most.
#[derive(Debug, Clone, PartialEq, Eq)]
pub struct PrimaryDriverSummary {
    pub id: String,
    pub label: String,
}

/// The risk of a project in short.
#[derive(Debug, Clone, PartialEq, Eq)]
pub struct RiskSummary {
    pub score: Option<Real>,
    pub band: String,
    pub primary_driver: Option<PrimaryDriverSummary>,
    pub files_by_band: BandCounts,
}

/// How a scan went.
#[derive(Debug, Clone, PartialEq, Eq)]
pub struct ScanRunInfo {
    pub scan_type: String,
    pub duration_ms: u64,
    pub files_detected: u64,
    pub files_analyzed: u64,
    pub git_history: String,
    pub commits_processed: u64,
    pub commits_total: Option<u64>,
}

/// A scan in short.
#[derive(Debug, Clone, PartialEq, Eq)]
pub struct ScanRunSummary {
    pub assessment_reliable: bool,
    pub scoring_confidence: String,
    pub risk: RiskSummary,
    pub scan: ScanRunInfo,
}

/// How far a scan can be relied on.
#[derive(Debug, Clone, PartialEq, Eq)]
pub struct ScanJsonAssessment {
    pub is_reliable: bool,
    pub scoring_confidence: String,
    pub reason: String,
}

/// How a scan went, as it is put out.
#[derive(Debug, Clone, PartialEq, Eq)]
pub struct ScanJsonScanInfo {
    pub scan_type: String,
    pub duration_ms: u64,
    pub files_detected: u64,
    pub files_analyzed: u64,
}

/// One of the riskiest files, as it is put out.
#[derive(Debug, Clone, PartialEq, Eq)]
pub struct ScanJsonHotspot {
    pub rank: u64,
    pub path: String,
    pub score: Real,
    pub band: String,
    pub reason: Option<String>,
}

/// A limitation, as it is put out.
#[derive(Debug, Clone, PartialEq, Eq)]
pub struct ScanJsonLimitation {
    pub code: String,
    pub message: String,
}

/// A scan as it is put out.
#[derive(Debug, Clone, PartialEq, Eq)]
pub struct ScanJsonOutput {
    pub schema_version: u64,
    pub hotpath_version: String,
    pub scanned_at: String,
    pub assessment: ScanJsonAssessment,
    pub risk: RiskSummary,
    pub scan: ScanJsonScanInfo,
    pub top_hotspots: Vec<ScanJsonHotspot>,
    pub limitations: Vec<ScanJsonLimitation>,
}

/// What [`GitStatus`] stands for.
#[verifier::ext_equal]
pub struct GitStatusView {
    pub confidence: Option<Seq<char>>,
    pub index_action: Option<Seq<char>>,
}

impl DeepView for GitStatus {
    type V = GitStatusView;

    open spec fn deep_view(&self) -> GitStatusView {
        GitStatusView {
            confidence: self.confidence.deep_view(),
            index_action: self.index_action.deep_view(),
        }
    }
}

/// What [`PipelineState`] stands for.
#[verifier::ext_equal]
pub struct PipelineStateView {
    pub git_status: GitStatusView,
    pub git_skipped: bool,
    pub elapsed_ms: u64,
    pub total_files: Option<u64>,
    pub enumerated_files: u64,
    pub analyzed_files: u64,
    pub git_commits_processed: u64,
    pub total_git_commits: Option<u64>,
}

impl DeepView for PipelineState {
    type V = PipelineStateView;

    open spec fn deep_view(&self) -> PipelineStateView {
        PipelineStateView {
            git_status: self.git_status.deep_view(),
            git_skipped: self.git_skipped,
            elapsed_ms: self.elapsed_ms,
            total_files: self.total_files.deep_view(),
            enumerated_files: self.enumerated_files,
            analyzed_files: self.analyzed_files,
            git_commits_processed: self.git_commits_processed,
            total_git_commits: self.total_git_commits.deep_view(),
        }
    }
}

/// What [`ProjectSummary`] stands for.
#[verifier::ext_equal]
pub struct ProjectSummaryView {
    pub confidence: Seq<char>,
    pub risk_10: RealView,
    pub risk_band: Seq<char>,
    pub dominant_dimension: Option<Seq<char>>,
}

impl DeepView for ProjectSummary {
    type V = ProjectSummaryView;

    open spec fn deep_view(&self) -> ProjectSummaryView {
        ProjectSummaryView {
            confidence: self.confidence@,
            risk_10: self.risk_10.deep_view(),
            risk_band: self.risk_band@,
            dominant_dimension: self.dominant_dimension.deep_view(),
        }
    }
}

/// What [`HotspotSummary`] stands for.
#[verifier::ext_equal]
pub struct HotspotSummaryView {
    pub rank: u64,
    pub relative_path: Seq<char>,
    pub risk_10: RealView,
    pub risk_band: Seq<char>,
    pub fact: Option<Seq<char>>,
}

impl DeepView for HotspotSummary {
    type V = HotspotSummaryView;

    open spec fn deep_view(&self) -> HotspotSummaryView {
        HotspotSummaryView {
            rank: self.rank,
            relative_path: self.relative_path@,
            risk_10: self.risk_10.deep_view(),
            risk_band: self.risk_band@,
            fact: self.fact.deep_view(),
        }
    }
}

/// What [`LimitationSummary`] stands for.
#[verifier::ext_equal]
pub struct LimitationSummaryView {
    pub code: Seq<char>,
    pub message: Seq<char>,
}

impl DeepView for LimitationSummary {
    type V = LimitationSummaryView;

    open spec fn deep_view(&self) -> LimitationSummaryView {
        LimitationSummaryView {
            code: self.code@,
            message: self.message@,
        }
    }
}

/// What [`ScanSummary`] stands for.
#[verifier::ext_equal]
pub struct ScanSummaryView {
    pub project: Option<ProjectSummaryView>,
    pub hotspots: Seq<HotspotSummaryView>,
    pub limitations: Seq<LimitationSummaryView>,
}

impl DeepView for ScanSummary {
    type V = ScanSummaryView;

    open spec fn deep_view(&self) -> ScanSummaryView {
        ScanSummaryView {
            project: self.project.deep_view(),
            hotspots: self.hotspots.deep_view(),
            limitations: self.limitations.deep_view(),
        }
    }
}

/// What [`PrimaryDriverSummary`] stands for.
#[verifier::ext_equal]
pub struct PrimaryDriverSummaryView {
    pub id: Seq<char>,
    pub label: Seq<char>,
}

impl DeepView for PrimaryDriverSummary {
    type V = PrimaryDriverSummaryView;

    open spec fn deep_view(&self) -> PrimaryDriverSummaryView {
        PrimaryDriverSummaryView {
            id: self.id@,
            label: self.label@,
        }
    }
}

/// What [`RiskSummary`] stands for.
#[verifier::ext_equal]
pub struct RiskSummaryView {
    pub score: Option<RealView>,
    pub band: Seq<char>,
    pub primary_driver: Option<PrimaryDriverSummaryView>,
    pub files_by_band: BandCounts,
}

impl DeepView for RiskSummary {
    type V = RiskSummaryView;

    open spec fn deep_view(&self) -> RiskSummaryView {
        RiskSummaryView {
            score: self.score.deep_view(),
            band: self.band@,
            primary_driver: self.primary_driver.deep_view(),
            files_by_band: self.files_by_band,
        }
    }
}

/// What [`ScanRunInfo`] stands for.
#[verifier::ext_equal]
pub struct ScanRunInfoView {
    pub scan_type: Seq<char>,
    pub duration_ms: u64,
    pub files_detected: u64,
    pub files_analyzed: u64,
    pub git_history: Seq<char>,
    pub commits_processed: u64,
    pub commits_total: Option<u64>,
}

impl DeepView for ScanRunInfo {
    type V = ScanRunInfoView;

    open spec fn deep_view(&self) -> ScanRunInfoView {
        ScanRunInfoView {
            scan_type: self.scan_type@,
            duration_ms: self.duration_ms,
            files_detected: self.files_detected,
            files_analyzed: self.files_analyzed,
            git_history: self.git_history@,
            commits_processed: self.commits_processed,
            commits_total: self.commits_total.deep_view(),
        }
    }
}

/// What [`ScanRunSummary`] stands for.
#[verifier::ext_equal]
pub struct ScanRunSummaryView {
    pub assessment_reliable: bool,
    pub scoring_confidence: Seq<char>,
    pub risk: RiskSummaryView,
    pub scan: ScanRunInfoView,
}

impl DeepView for ScanRunSummary {
    type V = ScanRunSummaryView;

    open spec fn deep_view(&self) -> ScanRunSummaryView {
        ScanRunSummaryView {
            assessment_reliable: self.assessment_reliable,
            scoring_confidence: self.scoring_confidence@,
            risk: self.risk.deep_view(),
            scan: self.scan.deep_view(),
        }
    }
}

/// What [`ScanJsonAssessment`] stands for.
#[verifier::ext_equal]
pub struct ScanJsonAssessmentView {
    pub is_reliable: bool,
    pub scoring_confidence: Seq<char>,
    pub reason: Seq<char>,
}

impl DeepView for ScanJsonAssessment {
    type V = ScanJsonAssessmentView;

    open spec fn deep_view(&self) -> ScanJsonAssessmentView {
        ScanJsonAssessmentView {
            is_reliable: self.is_reliable,
            scoring_confidence: self.scoring_confidence@,
            reason: self.reason@,
        }
    }
}

/// What [`ScanJsonScanInfo`] stands for.
#[verifier::ext_equal]
pub struct ScanJsonScanInfoView {
    pub scan_type: Seq<char>,
    pub duration_ms: u64,
    pub files_detected: u64,
    pub files_analyzed: u64,
}

impl DeepView for ScanJsonScanInfo {
    type V = ScanJsonScanInfoView;

    open spec fn deep_view(&self) -> ScanJsonScanInfoView {
        ScanJsonScanInfoView {
            scan_type: self.scan_type@,
            duration_ms: self.duration_ms,
            files_detected: self.files_detected,
            files_analyzed: self.files_analyzed,
        }
    }
}

/// What [`ScanJsonHotspot`] stands for.
#[verifier::ext_equal]
pub struct ScanJsonHotspotView {
    pub rank: u64,
    pub path: Seq<char>,
    pub score: RealView,
    pub band: Seq<char>,
    pub reason: Option<Seq<char>>,
}

impl DeepView for ScanJsonHotspot {
    type V = ScanJsonHotspotView;

    open spec fn deep_view(&self) -> ScanJsonHotspotView {
        ScanJsonHotspotView {
            rank: self.rank,
            path: self.path@,
            score: self.score.deep_view(),
            band: self.band@,
            reason: self.reason.deep_view(),
        }
    }
}

/// What [`ScanJsonLimitation`] stands for.
#[verifier::ext_equal]
pub struct ScanJsonLimitationView {
    pub code: Seq<char>,
    pub message: Seq<char>,
}

impl DeepView for ScanJsonLimitation {
    type V = ScanJsonLimitationView;

    open spec fn deep_view(&self) -> ScanJsonLimitationView {
        ScanJsonLimitationView {
            code: self.code@,
            message: self.message@,
        }
    }
}

/// What [`ScanJsonOutput`] stands for.
#[verifier::ext_equal]
pub struct ScanJsonOutputView {
    pub schema_version: u64,
    pub hotpath_version: Seq<char>,
    pub scanned_at: Seq<char>,
    pub assessment: ScanJsonAssessmentView,
    pub risk: RiskSummaryView,
    pub scan: ScanJsonScanInfoView,
    pub top_hotspots: Seq<ScanJsonHotspotView>,
    pub limitations: Seq<ScanJsonLimitationView>,
}

impl DeepView for ScanJsonOutput {
    type V = ScanJsonOutputView;

    open spec fn deep_view(&self) -> ScanJsonOutputView {
        ScanJsonOutputView {
            schema_version: self.schema_version,
            hotpath_version: self.hotpath_version@,
            scanned_at: self.scanned_at@,
            assessment: self.assessment.deep_view(),
            risk: self.risk.deep_view(),
            scan: self.scan.deep_view(),
            top_hotspots: self.top_hotspots.deep_view(),
            limitations: self.limitations.deep_view(),
        }
    }
}

/// How much of the history was read.
pub open spec fn history_of(state: PipelineStateView) -> Seq<char> {
    match state.git_status.confidence {
        Some(confidence) => if confidence == "full"@ {
            "full"@
        } else if confidence == "bounded"@ {
            "bounded"@
        } else if confidence == "incremental"@ || confidence == "up_to_date"@ {
            "incremental"@
        } else if confidence == "first_parent_only"@ {
            "first_parent_only"@
        } else if state.git_status.index_action == Some("reused"@) {
            "incremental"@
        } else {
            "absent"@
        },
        None => if state.git_status.index_action == Some("reused"@) {
            "incremental"@
        } else {
            "absent"@
        },
    }
}

fn is_text(value: &Option<String>, wanted: &str) -> (r: bool)
    ensures
        r == (value.deep_view() == Some(wanted@)),
{
    match value {
        Some(value) => text::same(value.as_str(), wanted),
        None => false,
    }
}

/// How much of the history was read.
pub fn derive_git_history(state: &PipelineState) -> (out: &'static str)
    ensures
        out@ == history_of(state.deep_view()),
{
    let confidence = &state.git_status.confidence;
    if is_text(confidence, "full") {
        "full"
    } else if is_text(confidence, "bounded") {
        "bounded"
    } else if is_text(confidence, "incremental") || is_text(confidence, "up_to_date") {
        "incremental"
    } else if is_text(confidence, "first_parent_only") {
        "first_parent_only"
    } else if is_text(&state.git_status.index_action, "reused") {
        "incremental"
    } else {
        "absent"
    }
}

/// Whether a scan went over everything.
pub open spec fn scan_type_of(state: PipelineStateView) -> Seq<char> {
    if state.git_status.index_action == Some("reused"@) || state.git_status.index_action == Some(
        "incrementally_updated"@,
    ) {
        "incremental"@
    } else {
        "full"@
    }
}

/// Whether a scan went over everything.
pub fn derive_scan_type(state: &PipelineState) -> (out: &'static str)
    ensures
        out@ == scan_type_of(state.deep_view()),
{
    if is_text(&state.git_status.index_action, "reused") || is_text(
        &state.git_status.index_action,
        "incrementally_updated",
    ) {
        "incremental"
    } else {
        "full"
    }
}

/// What drives the risk, by the dimension that dominates it.
pub open spec fn driver_of(dimension: Option<Seq<char>>) -> Option<PrimaryDriverSummaryView> {
    match dimension {
        None => None,
        Some(dimension) => if dimension == "churn"@ {
            Some(PrimaryDriverSummaryView { id: "churn"@, label: "Churn"@ })
        } else if dimension == "recent_churn"@ {
            Some(PrimaryDriverSummaryView { id: "churn"@, label: "Recent churn"@ })
        } else if dimension == "complexity_pressure"@ {
            Some(PrimaryDriverSummaryView { id: "complexity"@, label: "Complexity"@ })
        } else if dimension == "cochange_pressure"@ {
            Some(PrimaryDriverSummaryView { id: "cochange"@, label: "Co-change"@ })
        } else {
            None
        },
    }
}

/// What drives the risk, by the dimension that dominates it.
pub fn map_primary_driver(dominant_dimension: Option<&str>) -> (out: Option<PrimaryDriverSummary>)
    ensures
        out.deep_view() == driver_of(dominant_dimension.deep_view()),
{
    match dominant_dimension {
        None => None,
        Some(dimension) => if text::same(dimension, "churn") {
            Some(PrimaryDriverSummary { id: "churn".to_string(), label: "Churn".to_string() })
        } else if text::same(dimension, "recent_churn") {
            Some(PrimaryDriverSummary { id: "churn".to_string(), label: "Recent churn".to_string() })
        } else if text::same(dimension, "complexity_pressure") {
            Some(PrimaryDriverSummary { id: "complexity".to_string(), label: "Complexity".to_string() })
        } else if text::same(dimension, "cochange_pressure") {
            Some(PrimaryDriverSummary { id: "cochange".to_string(), label: "Co-change".to_string() })
        } else {
            None
        },
    }
}

/// How far the scores are to be trusted.
pub open spec fn confidence_of(summary: Option<ScanSummaryView>) -> Seq<char> {
    match project_of(summary) {
        Some(project) => project.confidence,
        None => "none"@,
    }
}

/// The project of a summary.
pub open spec fn project_of(summary: Option<ScanSummaryView>) -> Option<ProjectSummaryView> {
    match summary {
        Some(summary) => summary.project,
        None => None,
    }
}

/// The risk in short.
pub open spec fn risk_of(summary: Option<ScanSummaryView>, files_by_band: BandCounts) -> RiskSummaryView {
    match project_of(summary) {
        Some(project) => RiskSummaryView {
            score: if project.confidence != "none"@ {
                Some(project.risk_10)
            } else {
                None
            },
            band: if project.confidence != "none"@ {
                project.risk_band
            } else {
                "unavailable"@
            },
            primary_driver: driver_of(project.dominant_dimension),
            files_by_band,
        },
        None => RiskSummaryView {
            score: None,
            band: "unavailable"@,
            primary_driver: None,
            files_by_band,
        },
    }
}

/// A scan in short.
pub open spec fn run_of(
    state: PipelineStateView,
    summary: Option<ScanSummaryView>,
    files_by_band: BandCounts,
) -> ScanRunSummaryView {
    let confidence = confidence_of(summary);
    let history = history_of(state);
    ScanRunSummaryView {
        assessment_reliable: (confidence == "high"@ || confidence == "medium"@) && history
            != "absent"@,
        scoring_confidence: confidence,
        risk: risk_of(summary, files_by_band),
        scan: ScanRunInfoView {
            scan_type: scan_type_of(state),
            duration_ms: state.elapsed_ms,
            files_detected: match state.total_files {
                Some(total) => total,
                None => state.enumerated_files,
            },
            files_analyzed: state.analyzed_files,
            git_history: history,
            commits_processed: state.git_commits_processed,
            commits_total: state.total_git_commits,
        },
    }
}

fn risk_in_short(project: Option<&ProjectSummary>, files_by_band: BandCounts) -> (out: RiskSummary)
    ensures
        project is None ==> out.deep_view() == risk_of(None, files_by_band),
        project matches Some(project) ==> forall|summary: ScanSummaryView|
            #![trigger risk_of(Some(summary), files_by_band)]
            summary.project == Some(project.deep_view()) ==> out.deep_view() == risk_of(
                Some(summary),
                files_by_band,
            ),
{
    match project {
        Some(project) => {
            let scored = !text::same(project.confidence.as_str(), "none");
            RiskSummary {
                score: if scored {
                    Some(measure::copy(&project.risk_10))
                } else {
                    None
                },
                band: if scored {
                    project.risk_band.clone()
                } else {
                    "unavailable".to_string()
                },
                primary_driver: match &project.dominant_dimension {
                    Some(dimension) => map_primary_driver(Some(dimension.as_str())),
                    None => None,
                },
                files_by_band,
            }
        },
        None => RiskSummary {
            score: None,
            band: "unavailable".to_string(),
            primary_driver: None,
            files_by_band,
        },
    }
}

/// A scan in short.
pub fn build_scan_run_summary(
    state: &PipelineState,
    summary: Option<&ScanSummary>,
    files_by_band: BandCounts,
) -> (out: ScanRunSummary)
    ensures
        out.deep_view() == run_of(state.deep_view(), summary.deep_view(), files_by_band),
{
    let project: Option<&ProjectSummary> = match summary {
        Some(summary) => match &summary.project {
            Some(project) => Some(project),
            None => None,
        },
        None => None,
    };
    let scoring_confidence: String = match project {
        Some(project) => project.confidence.clone(),
        None => "none".to_string(),
    };
    let git_history = derive_git_history(state);
    let assessment_reliable = (text::same(scoring_confidence.as_str(), "high") || text::same(
        scoring_confidence.as_str(),
        "medium",
    )) && !text::same(git_history, "absent");
    let risk = risk_in_short(project, files_by_band);
    let files_detected: u64 = match state.total_files {
        Some(total) => total,
        None => state.enumerated_files,
    };
    ScanRunSummary {
        assessment_reliable,
        scoring_confidence,
        risk,
        scan: ScanRunInfo {
            scan_type: derive_scan_type(state).to_string(),
            duration_ms: state.elapsed_ms,
            files_detected,
            files_analyzed: state.analyzed_files,
            git_history: git_history.to_string(),
            commits_processed: state.git_commits_processed,
            commits_total: state.total_git_commits,
        },
    }
}

/// Why a scan can or cannot be relied on.
pub open spec fn reason_of(run: ScanRunSummaryView) -> Seq<char> {
    if run.assessment_reliable && run.scoring_confidence == "high"@ {
        "High scoring coverage and repository context are available."@
    } else if run.assessment_reliable && run.scoring_confidence == "medium"@ {
        "Medium scoring coverage and repository context are available."@
    } else if run.assessment_reliable {
        "Scoring coverage and repository context are available."@
    } else if run.scoring_confidence == "none"@ {
        "No production Go files were scored."@
    } else if run.scoring_confidence == "low"@ {
        "Scoring coverage is low."@
    } else if run.scoring_confidence == "high"@ && run.scan.git_history == "absent"@ {
        "High scoring coverage, but repository context is unavailable."@
    } else if run.scoring_confidence == "medium"@ && run.scan.git_history == "absent"@ {
        "Medium scoring coverage, but repository context is unavailable."@
    } else {
        "Assessment reliability is limited by incomplete scoring context."@
    }
}

/// Why a scan can or cannot be relied on.
pub fn assessment_reason(run: &ScanRunSummary) -> (out: &'static str)
    ensures
        out@ == reason_of(run.deep_view()),
{
    let confidence = run.scoring_confidence.as_str();
    let history = run.scan.git_history.as_str();
    if run.assessment_reliable && text::same(confidence, "high") {
        "High scoring coverage and repository context are available."
    } else if run.assessment_reliable && text::same(confidence, "medium") {
        "Medium scoring coverage and repository context are available."
    } else if run.assessment_reliable {
        "Scoring coverage and repository context are available."
    } else if text::same(confidence, "none") {
        "No production Go files were scored."
    } else if text::same(confidence, "low") {
        "Scoring coverage is low."
    } else if text::same(confidence, "high") && text::same(history, "absent") {
        "High scoring coverage, but repository context is unavailable."
    } else if text::same(confidence, "medium") && text::same(history, "absent") {
        "Medium scoring coverage, but repository context is unavailable."
    } else {
        "Assessment reliability is limited by incomplete scoring context."
    }
}

/// A scan that cannot be relied on without a history says that the history is missing, where its
/// scores would otherwise do.
pub proof fn a_missing_history_is_the_reason(
    state: PipelineStateView,
    summary: Option<ScanSummaryView>,
    files_by_band: BandCounts,
)
    requires
        confidence_of(summary) == "high"@ || confidence_of(summary) == "medium"@,
    ensures
        run_of(state, summary, files_by_band).assessment_reliable == (history_of(state)
            != "absent"@),
        history_of(state) == "absent"@ && confidence_of(summary) == "high"@ ==> reason_of(
            run_of(state, summary, files_by_band),
        ) == "High scoring coverage, but repository context is unavailable."@,
        history_of(state) == "absent"@ && confidence_of(summary) == "medium"@ ==> reason_of(
            run_of(state, summary, files_by_band),
        ) == "Medium scoring coverage, but repository context is unavailable."@,
{
    reveal_strlit("high");
    reveal_strlit("medium");
    reveal_strlit("none");
    reveal_strlit("low");
    let confidence = confidence_of(summary);
    assert("high"@.len() == 4);
    assert("medium"@.len() == 6);
    assert("none"@[0] == 'n' && "high"@[0] == 'h' && "medium"@[0] == 'm' && "low"@[0] == 'l');
}

/// `c` in upper case where it is an ASCII letter.
pub open spec fn upper(c: char) -> char {
    if 'a' <= c <= 'z' {
        ((c as u32) - 32) as char
    } else {
        c
    }
}

/// Whether `c` is an ASCII letter.
pub open spec fn is_letter(c: char) -> bool {
    'a' <= c <= 'z' || 'A' <= c <= 'Z'
}

/// `s` with its first ASCII letter in upper case.
pub open spec fn capitalized(s: Seq<char>) -> Seq<char>
    decreases s.len(),
{
    if s.len() == 0 {
        s
    } else if is_letter(s[0]) {
        seq![upper(s[0])] + s.drop_first()
    } else {
        seq![s[0]] + capitalized(s.drop_first())
    }
}

/// Whether `c` ends a sentence.
pub open spec fn is_stop(c: char) -> bool {
    c == '.' || c == '!' || c == '?'
}

/// `s` without what ends its last sentence.
pub open spec fn without_stops(s: Seq<char>) -> Seq<char>
    decreases s.len(),
{
    if s.len() > 0 && is_stop(s.last()) {
        without_stops(s.drop_last())
    } else {
        s
    }
}

fn capitalize(s: &str) -> (out: Vec<char>)
    ensures
        out@ == capitalized(s@),
{
    let chars = text::chars_of(s);
    let mut out: Vec<char> = Vec::new();
    let mut i: usize = 0;
    assert(s@.skip(0) =~= s@);
    assert(out@ + capitalized(s@.skip(0)) =~= capitalized(s@));
    while i < chars.len()
        invariant
            i <= chars.len(),
            chars@ == s@,
            out@ + capitalized(s@.skip(i as int)) == capitalized(s@),
        decreases chars.len() - i,
    {
        let c: char = chars[i];
        let ghost rest = s@.skip(i as int);
        let ghost before = out@;
        assert(rest[0] == c);
        assert(rest.drop_first() =~= s@.skip(i + 1));
        i = i + 1;
        if ('a' <= c && c <= 'z') || ('A' <= c && c <= 'Z') {
            let first: char = if 'a' <= c {
                ((c as u8) - 32) as char
            } else {
                c
            };
            assert(first == upper(c));
            out.push(first);
            assert(out@ + s@.skip(i as int) =~= before + capitalized(rest));
            while i < chars.len()
                invariant
                    i <= chars.len(),
                    chars@ == s@,
                    out@ + s@.skip(i as int) == capitalized(s@),
                decreases chars.len() - i,
            {
                let ghost so_far = out@;
                out.push(chars[i]);
                assert(s@.skip(i as int) =~= seq![s@[i as int]] + s@.skip(i + 1));
                assert(out@ + s@.skip(i + 1) =~= so_far + s@.skip(i as int));
                i = i + 1;
            }
            assert(out@ + s@.skip(i as int) =~= out@);
            return out;
        }
        out.push(c);
        assert(out@ + capitalized(s@.skip(i as int)) =~= before + capitalized(rest));
    }
    assert(out@ + capitalized(s@.skip(i as int)) =~= out@);
    out
}

/// A limitation in words that start with a capital and do not end a sentence.
pub open spec fn normalized_message(message: Seq<char>) -> Seq<char> {
    without_stops(capitalized(text::trimmed(message)))
}

/// Renders a limitation in words that start with a capital and do not end a sentence.
pub fn normalize_json_limitation_message(message: &str) -> (out: String)
    ensures
        out@ == normalized_message(message@),
{
    let trimmed = text::trim(message);
    let mut chars = capitalize(trimmed.as_str());
    while chars.len() > 0 && (chars[chars.len() - 1] == '.' || chars[chars.len() - 1] == '!'
        || chars[chars.len() - 1] == '?')
        invariant
            without_stops(chars@) == normalized_message(message@),
        decreases chars.len(),
    {
        let ghost before = chars@;
        chars.pop();
        assert(chars@ =~= before.drop_last());
    }
    text::string_of(chars.as_slice())
}

/// A normalized message does not end with what ends a sentence.
pub proof fn normalized_messages_do_not_end_sentences(message: Seq<char>)
    ensures
        normalized_message(message).len() > 0 ==> !is_stop(normalized_message(message).last()),
{
    stops_are_gone(capitalized(text::trimmed(message)));
}

proof fn stops_are_gone(s: Seq<char>)
    ensures
        without_stops(s).len() > 0 ==> !is_stop(without_stops(s).last()),
    decreases s.len(),
{
    if s.len() > 0 && is_stop(s.last()) {
        stops_are_gone(s.drop_last());
    }
}

/// One of the riskiest files, as it is put out.
pub open spec fn hotspot_output(item: HotspotSummaryView) -> ScanJsonHotspotView {
    ScanJsonHotspotView {
        rank: item.rank,
        path: item.relative_path,
        score: item.risk_10,
        band: item.risk_band,
        reason: item.fact,
    }
}

fn put_hotspot(item: &HotspotSummary) -> (out: ScanJsonHotspot)
    ensures
        out.deep_view() == hotspot_output(item.deep_view()),
{
    ScanJsonHotspot {
        rank: item.rank,
        path: item.relative_path.clone(),
        score: measure::copy(&item.risk_10),
        band: item.risk_band.clone(),
        reason: match &item.fact {
            Some(fact) => Some(fact.clone()),
            None => None,
        },
    }
}

/// A limitation, as it is put out.
pub open spec fn limitation_output(item: LimitationSummaryView) -> ScanJsonLimitationView {
    ScanJsonLimitationView { code: item.code, message: normalized_message(item.message) }
}

fn put_limitation(item: &LimitationSummary) -> (out: ScanJsonLimitation)
    ensures
        out.deep_view() == limitation_output(item.deep_view()),
{
    ScanJsonLimitation {
        code: item.code.clone(),
        message: normalize_json_limitation_message(item.message.as_str()),
    }
}

/// The riskiest files, as they are put out.
pub open spec fn hotspot_outputs(items: Seq<HotspotSummaryView>) -> Seq<ScanJsonHotspotView> {
    Seq::new(items.len(), |i: int| hotspot_output(items[i]))
}

fn put_hotspots(items: &Vec<HotspotSummary>) -> (out: Vec<ScanJsonHotspot>)
    ensures
        out.deep_view() == hotspot_outputs(items.deep_view()),
{
    let ghost wanted = hotspot_outputs(items.deep_view());
    let mut out: Vec<ScanJsonHotspot> = Vec::new();
    let mut i: usize = 0;
    assert(out.deep_view() =~= wanted.take(0));
    while i < items.len()
        invariant
            i <= items.len(),
            wanted == hotspot_outputs(items.deep_view()),
            out.deep_view() == wanted.take(i as int),
        decreases items.len() - i,
    {
        let ghost before = out.deep_view();
        assert(items.deep_view()[i as int] == items@[i as int].deep_view());
        let one = put_hotspot(&items[i]);
        out.push(one);
        assert(out.deep_view() =~= before.push(one.deep_view()));
        i = i + 1;
        assert(out.deep_view() =~= wanted.take(i as int));
    }
    assert(wanted.take(i as int) =~= wanted);
    out
}

/// The limitations, as they are put out.
pub open spec fn limitation_outputs(items: Seq<LimitationSummaryView>) -> Seq<ScanJsonLimitationView> {
    Seq::new(items.len(), |i: int| limitation_output(items[i]))
}

fn put_limitations(items: &Vec<LimitationSummary>) -> (out: Vec<ScanJsonLimitation>)
    ensures
        out.deep_view() == limitation_outputs(items.deep_view()),
{
    let ghost wanted = limitation_outputs(items.deep_view());
    let mut out: Vec<ScanJsonLimitation> = Vec::new();
    let mut i: usize = 0;
    assert(out.deep_view() =~= wanted.take(0));
    while i < items.len()
        invariant
            i <= items.len(),
            wanted == limitation_outputs(items.deep_view()),
            out.deep_view() == wanted.take(i as int),
        decreases items.len() - i,
    {
        let ghost before = out.deep_view();
        assert(items.deep_view()[i as int] == items@[i as int].deep_view());
        let one = put_limitation(&items[i]);
        out.push(one);
        assert(out.deep_view() =~= before.push(one.deep_view()));
        i = i + 1;
        assert(out.deep_view() =~= wanted.take(i as int));
    }
    assert(wanted.take(i as int) =~= wanted);
    out
}

/// A scan as it is put out.
pub open spec fn output_of(
    run: ScanRunSummaryView,
    summary: Option<ScanSummaryView>,
    version: Seq<char>,
    epoch_secs: u64,
) -> ScanJsonOutputView {
    ScanJsonOutputView {
        schema_version: SCAN_JSON_SCHEMA_VERSION,
        hotpath_version: version,
        scanned_at: calendar::utc_text(epoch_secs as nat),
        assessment: ScanJsonAssessmentView {
            is_reliable: run.assessment_reliable,
            scoring_confidence: run.scoring_confidence,
            reason: reason_of(run),
        },
        risk: run.risk,
        scan: ScanJsonScanInfoView {
            scan_type: run.scan.scan_type,
            duration_ms: run.scan.duration_ms,
            files_detected: run.scan.files_detected,
            files_analyzed: run.scan.files_analyzed,
        },
        top_hotspots: match summary {
            Some(summary) => hotspot_outputs(summary.hotspots),
            None => Seq::empty(),
        },
        limitations: match summary {
            Some(summary) => limitation_outputs(summary.limitations),
            None => Seq::empty(),
        },
    }
}

impl ScanJsonOutput {
    /// A scan as it is put out, by a program of this version at this moment.
    pub fn build(
        run: ScanRunSummary,
        summary: Option<&ScanSummary>,
        version: &str,
        epoch_secs: u64,
    ) -> (out: ScanJsonOutput)
        ensures
            out.deep_view() == output_of(
                run.deep_view(),
                summary.deep_view(),
                version@,
                epoch_secs,
            ),
    {
        let reason = assessment_reason(&run).to_string();
        let scanned_at = calendar::format_utc_iso8601(epoch_secs);
        let top_hotspots = match summary {
            Some(summary) => put_hotspots(&summary.hotspots),
            None => Vec::new(),
        };
        let limitations = match summary {
            Some(summary) => put_limitations(&summary.limitations),
            None => Vec::new(),
        };
        let out = ScanJsonOutput {
            schema_version: SCAN_JSON_SCHEMA_VERSION,
            hotpath_version: version.to_string(),
            scanned_at,
            assessment: ScanJsonAssessment {
                is_reliable: run.assessment_reliable,
                scoring_confidence: run.scoring_confidence,
                reason,
            },
            risk: run.risk,
            scan: ScanJsonScanInfo {
                scan_type: run.scan.scan_type,
                duration_ms: run.scan.duration_ms,
                files_detected: run.scan.files_detected,
                files_analyzed: run.scan.files_analyzed,
            },
            top_hotspots,
            limitations,
        };
        assert(out.deep_view() =~= output_of(
            run.deep_view(),
            summary.deep_view(),
            version@,
            epoch_secs,
        ));
        out
    }
}

} // verus!
