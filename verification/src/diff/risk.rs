//! How risky a diff is: which hotspots it touches, and by how much it grows the context.

use vstd::prelude::*;

use crate::commands;
use crate::diff;
use crate::diff::{
    parse_diff_range, DiffArchitectureStatus, DiffChangeKind, DiffChangedFile,
    DiffChangedFileView, DiffRangeMetadata, DiffRangeMetadataView, DiffRangeParseError,
    DiffRangeSpec, DiffRangeSpecView, DiffReport, DiffReportView,
};
use crate::measure;
use crate::measure::{Real, RealView};
use crate::numbers;
use crate::scan::{FileRecord, FileRecordView};
use crate::scoring::{RankedHotspotScore, RankedHotspotScoreView, DEFAULT_HOTSPOTS_LIMIT};
use crate::table::TextSet;

verus! {

/// A hotspot that a diff touches, with its score in three decimals.
#[derive(Debug, Clone, PartialEq, Eq)]
pub struct TouchedHotspot {
    pub rank: u64,
    pub path: String,
    pub score: Real,
}

/// The totals of the risk of a diff.
#[derive(Debug, Clone, PartialEq, Eq)]
pub struct DiffRiskSummary {
    pub changed_file_count: u64,
    pub touched_hotspot_count: u64,
    pub touched_hotspots: Vec<TouchedHotspot>,
    pub context_token_delta: i64,
    pub architecture: DiffArchitectureStatus,
}

/// How risky a diff is.
#[derive(Debug, Clone, PartialEq, Eq)]
pub struct DiffRiskReport {
    pub schema_version: &'static str,
    pub range: DiffRangeMetadata,
    pub summary: DiffRiskSummary,
    pub changed_files: Vec<DiffChangedFile>,
    pub architecture: DiffArchitectureStatus,
}

/// What [`TouchedHotspot`] stands for.
#[verifier::ext_equal]
pub struct TouchedHotspotView {
    pub rank: u64,
    pub path: Seq<char>,
    pub score: RealView,
}

impl DeepView for TouchedHotspot {
    type V = TouchedHotspotView;

    open spec fn deep_view(&self) -> TouchedHotspotView {
        TouchedHotspotView {
            rank: self.rank,
            path: self.path@,
            score: self.score.deep_view(),
        }
    }
}

/// What [`DiffRiskSummary`] stands for.
#[verifier::ext_equal]
pub struct DiffRiskSummaryView {
    pub changed_file_count: u64,
    pub touched_hotspot_count: u64,
    pub touched_hotspots: Seq<TouchedHotspotView>,
    pub context_token_delta: i64,
    pub architecture: DiffArchitectureStatus,
}

impl DeepView for DiffRiskSummary {
    type V = DiffRiskSummaryView;

    open spec fn deep_view(&self) -> DiffRiskSummaryView {
        DiffRiskSummaryView {
            changed_file_count: self.changed_file_count,
            touched_hotspot_count: self.touched_hotspot_count,
            touched_hotspots: self.touched_hotspots.deep_view(),
            context_token_delta: self.context_token_delta,
            architecture: self.architecture,
        }
    }
}

/// What [`DiffRiskReport`] stands for.
#[verifier::ext_equal]
pub struct DiffRiskReportView {
    pub schema_version: Seq<char>,
    pub range: DiffRangeMetadataView,
    pub summary: DiffRiskSummaryView,
    pub changed_files: Seq<DiffChangedFileView>,
    pub architecture: DiffArchitectureStatus,
}

impl DeepView for DiffRiskReport {
    type V = DiffRiskReportView;

    open spec fn deep_view(&self) -> DiffRiskReportView {
        DiffRiskReportView {
            schema_version: self.schema_version@,
            range: self.range.deep_view(),
            summary: self.summary.deep_view(),
            changed_files: self.changed_files.deep_view(),
            architecture: self.architecture,
        }
    }
}

/// The paths of changed files.
pub open spec fn changed_paths(files: Seq<DiffChangedFileView>) -> Set<Seq<char>>
    decreases files.len(),
{
    if files.len() == 0 {
        Set::empty()
    } else {
        changed_paths(files.drop_last()).insert(files.last().path)
    }
}

fn set_of_changed(files: &Vec<DiffChangedFile>) -> (out: TextSet)
    ensures
        out.wf(),
        out@ == changed_paths(files.deep_view()),
{
    let ghost all = files.deep_view();
    let mut out = TextSet::new();
    let mut i: usize = 0;
    while i < files.len()
        invariant
            i <= files.len(),
            all == files.deep_view(),
            out.wf(),
            out@ == changed_paths(all.take(i as int)),
        decreases files.len() - i,
    {
        assert(all.take(i + 1).drop_last() =~= all.take(i as int));
        assert(all.take(i + 1).last() == files@[i as int].deep_view());
        out.insert(files[i].path.as_str());
        i = i + 1;
    }
    assert(all.take(i as int) =~= all);
    out
}

/// Those of `ranked` that are changed and still there.
pub open spec fn touched_of(
    changed: Set<Seq<char>>,
    current: Set<Seq<char>>,
    ranked: Seq<RankedHotspotScoreView>,
) -> Seq<TouchedHotspotView>
    decreases ranked.len(),
{
    if ranked.len() == 0 {
        Seq::empty()
    } else {
        let before = touched_of(changed, current, ranked.drop_last());
        let score = ranked.last().score;
        if changed.contains(score.path) && current.contains(score.path) {
            before.push(
                TouchedHotspotView {
                    rank: ranked.last().rank,
                    path: score.path,
                    score: score.value,
                },
            )
        } else {
            before
        }
    }
}

/// The first of the ranked scores, which are the hotspots.
pub open spec fn hotspots_of(ranked: Seq<RankedHotspotScoreView>) -> Seq<RankedHotspotScoreView> {
    if ranked.len() > DEFAULT_HOTSPOTS_LIMIT {
        ranked.take(DEFAULT_HOTSPOTS_LIMIT as int)
    } else {
        ranked
    }
}

/// The hotspots that changed files touch.
pub open spec fn touched(
    changed_files: Seq<DiffChangedFileView>,
    current_files: Seq<FileRecordView>,
    ranked: Seq<RankedHotspotScoreView>,
) -> Seq<TouchedHotspotView> {
    touched_of(
        changed_paths(changed_files),
        commands::scanned_paths(current_files),
        hotspots_of(ranked),
    )
}

/// The hotspots that changed files touch: of the first ranked scores those whose files are
/// changed and still there.
pub fn touched_hotspots(
    changed_files: &Vec<DiffChangedFile>,
    current_files: &Vec<FileRecord>,
    ranked: &Vec<RankedHotspotScore>,
) -> (out: Vec<TouchedHotspot>)
    ensures
        out.deep_view() == touched(
            changed_files.deep_view(),
            current_files.deep_view(),
            ranked.deep_view(),
        ),
{
    let changed = set_of_changed(changed_files);
    let current = commands::set_of_paths(current_files);
    let ghost all = ranked.deep_view();
    let ghost first = hotspots_of(all);
    let mut out: Vec<TouchedHotspot> = Vec::new();
    let mut i: usize = 0;
    assert(out.deep_view() =~= touched_of(changed@, current@, first.take(0)));
    while i < ranked.len() && i < DEFAULT_HOTSPOTS_LIMIT
        invariant
            i <= ranked.len(),
            i <= DEFAULT_HOTSPOTS_LIMIT,
            all == ranked.deep_view(),
            first == hotspots_of(all),
            changed.wf(),
            current.wf(),
            out.deep_view() == touched_of(changed@, current@, first.take(i as int)),
        decreases ranked.len() - i,
    {
        let score = &ranked[i];
        assert(first.take(i + 1).drop_last() =~= first.take(i as int));
        assert(first.take(i + 1).last() == score.deep_view());
        if changed.contains(score.score.path.as_str()) && current.contains(
            score.score.path.as_str(),
        ) {
            let ghost before = out.deep_view();
            let one = TouchedHotspot {
                rank: score.rank,
                path: score.score.path.clone(),
                score: measure::copy(&score.score.value),
            };
            out.push(one);
            assert(out.deep_view() =~= before.push(one.deep_view()));
        }
        i = i + 1;
    }
    assert(first.take(i as int) =~= first);
    out
}

/// How risky a diff is, by the files that are there and the ranked scores.
pub open spec fn risk_of(
    report: DiffReportView,
    files: Seq<FileRecordView>,
    ranked: Seq<RankedHotspotScoreView>,
) -> DiffRiskReportView {
    let hotspots = touched(report.changed_files, files, ranked);
    DiffRiskReportView {
        schema_version: report.schema_version,
        range: report.range,
        summary: DiffRiskSummaryView {
            changed_file_count: report.summary.changed_files,
            touched_hotspot_count: hotspots.len() as u64,
            touched_hotspots: hotspots,
            context_token_delta: report.summary.context_token_delta,
            architecture: report.architecture,
        },
        changed_files: report.changed_files,
        architecture: report.architecture,
    }
}

/// How risky a diff is, by the files that are there and the ranked scores.
pub fn diff_risk_report(
    report: DiffReport,
    files: &Vec<FileRecord>,
    ranked: &Vec<RankedHotspotScore>,
) -> (out: DiffRiskReport)
    ensures
        out.deep_view() == risk_of(report.deep_view(), files.deep_view(), ranked.deep_view()),
{
    let hotspots = touched_hotspots(&report.changed_files, files, ranked);
    DiffRiskReport {
        schema_version: report.schema_version,
        range: report.range,
        summary: DiffRiskSummary {
            changed_file_count: report.summary.changed_files,
            touched_hotspot_count: hotspots.len() as u64,
            touched_hotspots: hotspots,
            context_token_delta: report.summary.context_token_delta,
            architecture: report.architecture,
        },
        changed_files: report.changed_files,
        architecture: report.architecture,
    }
}

/// What is known of the architecture, in words.
pub open spec fn architecture_words(status: DiffArchitectureStatus) -> Seq<char> {
    match status {
        DiffArchitectureStatus::NotEvaluated => "not evaluated"@,
    }
}

/// What is known of the architecture, in words.
pub fn diff_architecture_label(status: DiffArchitectureStatus) -> (out: &'static str)
    ensures
        out@ == architecture_words(status),
{
    match status {
        DiffArchitectureStatus::NotEvaluated => "not evaluated",
    }
}

/// What a kind of change is called.
pub open spec fn kind_words(kind: DiffChangeKind) -> Seq<char> {
    match kind {
        DiffChangeKind::Added => "added"@,
        DiffChangeKind::Modified => "modified"@,
        DiffChangeKind::Deleted => "deleted"@,
        DiffChangeKind::Renamed => "renamed"@,
        DiffChangeKind::Copied => "copied"@,
        DiffChangeKind::TypeChanged => "type_changed"@,
    }
}

/// What a kind of change is called.
pub fn diff_change_kind_label(kind: DiffChangeKind) -> (out: &'static str)
    ensures
        out@ == kind_words(kind),
{
    match kind {
        DiffChangeKind::Added => "added",
        DiffChangeKind::Modified => "modified",
        DiffChangeKind::Deleted => "deleted",
        DiffChangeKind::Renamed => "renamed",
        DiffChangeKind::Copied => "copied",
        DiffChangeKind::TypeChanged => "type_changed",
    }
}

/// A number in digits with its sign before it.
pub open spec fn with_sign(n: int) -> Seq<char> {
    if n < 0 {
        numbers::signed_decimal(n)
    } else {
        "+"@ + numbers::signed_decimal(n)
    }
}

fn push_with_sign(out: &mut String, n: i64)
    ensures
        final(out)@ == old(out)@ + with_sign(n as int),
{
    let ghost before = out@;
    if n >= 0 {
        out.append("+");
    }
    numbers::push_signed_decimal(out, n);
    assert(out@ =~= before + with_sign(n as int));
}

/// Touched hotspots as lines.
pub open spec fn hotspot_lines(out: Seq<char>, items: Seq<TouchedHotspotView>) -> Seq<char>
    decreases items.len(),
{
    if items.len() == 0 {
        out
    } else {
        let item = items.last();
        hotspot_lines(out, items.drop_last())
            + "\n  #"@
            + numbers::decimal(item.rank as nat)
            + "  "@
            + item.score.text
            + "  "@
            + item.path
    }
}

fn push_hotspot_lines(out: &mut String, items: &Vec<TouchedHotspot>)
    ensures
        final(out)@ == hotspot_lines(old(out)@, items.deep_view()),
{
    let ghost start = out@;
    let ghost all = items.deep_view();
    let mut i: usize = 0;
    while i < items.len()
        invariant
            i <= items.len(),
            all == items.deep_view(),
            out@ == hotspot_lines(start, all.take(i as int)),
        decreases items.len() - i,
    {
        let item = &items[i];
        assert(all.take(i + 1).drop_last() =~= all.take(i as int));
        assert(all.take(i + 1).last() == item.deep_view());
        out.append("\n  #");
        numbers::push_decimal(out, item.rank);
        out.append("  ");
        out.append(item.score.text.as_str());
        out.append("  ");
        out.append(item.path.as_str());
        i = i + 1;
    }
    assert(all.take(i as int) =~= all);
}

/// Changed files as lines.
pub open spec fn file_lines(out: Seq<char>, items: Seq<DiffChangedFileView>) -> Seq<char>
    decreases items.len(),
{
    if items.len() == 0 {
        out
    } else {
        let item = items.last();
        file_lines(out, items.drop_last())
            + "\n  "@
            + kind_words(item.change_kind)
            + "  "@
            + item.path
            + "  +"@
            + numbers::decimal(item.added_lines as nat)
            + " -"@
            + numbers::decimal(item.deleted_lines as nat)
            + "  "@
            + with_sign(item.context_token_delta as int)
            + " tokens"@
    }
}

fn push_file_lines(out: &mut String, items: &Vec<DiffChangedFile>)
    ensures
        final(out)@ == file_lines(old(out)@, items.deep_view()),
{
    let ghost start = out@;
    let ghost all = items.deep_view();
    let mut i: usize = 0;
    while i < items.len()
        invariant
            i <= items.len(),
            all == items.deep_view(),
            out@ == file_lines(start, all.take(i as int)),
        decreases items.len() - i,
    {
        let item = &items[i];
        assert(all.take(i + 1).drop_last() =~= all.take(i as int));
        assert(all.take(i + 1).last() == item.deep_view());
        out.append("\n  ");
        out.append(diff_change_kind_label(item.change_kind));
        out.append("  ");
        out.append(item.path.as_str());
        out.append("  +");
        numbers::push_decimal(out, item.added_lines);
        out.append(" -");
        numbers::push_decimal(out, item.deleted_lines);
        out.append("  ");
        push_with_sign(out, item.context_token_delta);
        out.append(" tokens");
        i = i + 1;
    }
    assert(all.take(i as int) =~= all);
}

/// The risk of a diff as text.
pub open spec fn risk_text(report: DiffRiskReportView) -> Seq<char> {
    let head =
        "Hotpath diff risk\nrange: "@
            + report.range.requested
            + "\nChanged files: "@
            + numbers::decimal(report.summary.changed_file_count as nat)
            + "\nTouched hotspots: "@
            + numbers::decimal(report.summary.touched_hotspot_count as nat)
            + "\nArchitecture violations: "@
            + architecture_words(report.summary.architecture)
            + "\nContext growth: "@
            + with_sign(report.summary.context_token_delta as int)
            + " tokens\n\ntouched hotspots"@;
    let hotspots = if report.summary.touched_hotspots.len() == 0 {
        head + "\n  none"@
    } else {
        hotspot_lines(head, report.summary.touched_hotspots)
    };
    let titled = hotspots + "\n\nchanged files"@;
    if report.changed_files.len() == 0 {
        titled + "\n  none"@
    } else {
        file_lines(titled, report.changed_files)
    }
}

/// Renders the risk of a diff.
pub fn render_diff_risk_text(report: &DiffRiskReport) -> (output: String)
    ensures
        output@ == risk_text(report.deep_view()),
{
    let mut text = "Hotpath diff risk\nrange: ".to_string();
    let out = &mut text;
    out.append(report.range.requested.as_str());
    out.append("\nChanged files: ");
    numbers::push_decimal(out, report.summary.changed_file_count);
    out.append("\nTouched hotspots: ");
    numbers::push_decimal(out, report.summary.touched_hotspot_count);
    out.append("\nArchitecture violations: ");
    out.append(diff_architecture_label(report.summary.architecture));
    out.append("\nContext growth: ");
    push_with_sign(out, report.summary.context_token_delta);
    out.append(" tokens\n\ntouched hotspots");
    if report.summary.touched_hotspots.len() == 0 {
        out.append("\n  none");
    } else {
        push_hotspot_lines(out, &report.summary.touched_hotspots);
    }
    out.append("\n\nchanged files");
    if report.changed_files.len() == 0 {
        out.append("\n  none");
    } else {
        push_file_lines(out, &report.changed_files);
    }
    text
}

/// Tells how risky a diff is, by the files that are there and the ranked scores.
pub fn diff_risk(report: DiffReport, files: &Vec<FileRecord>, ranked: &Vec<RankedHotspotScore>) -> (
    output: String)
    ensures
        output@ == risk_text(
            risk_of(report.deep_view(), files.deep_view(), ranked.deep_view()),
        ),
{
    render_diff_risk_text(&diff_risk_report(report, files, ranked))
}

/// The range of a pull request from `head` into `base`.
pub fn pr_risk(base: &str, head: &str) -> (out: Result<DiffRangeSpec, DiffRangeParseError>)
    ensures
        match out {
            Ok(spec) => diff::parsed_range(base@ + "..."@ + head@) == Ok::<
                DiffRangeSpecView,
                DiffRangeParseError,
            >(spec.deep_view()),
            Err(fault) => diff::parsed_range(base@ + "..."@ + head@) == Err::<
                DiffRangeSpecView,
                DiffRangeParseError,
            >(fault),
        },
{
    let mut range = base.to_string();
    range.append("...");
    range.append(head);
    parse_diff_range(range.as_str())
}

} // verus!
