//! Scores of files: which are listed, and how they are told.

pub mod laws;

use vstd::prelude::*;

use crate::measure;
use crate::measure::{Real, RealView};
use crate::numbers;
use crate::order;
use crate::order::{KeyPart, Ordered};
use crate::scan::{FileRecord, FileRecordView};
use crate::table::TextMap;
use crate::text;

verus! {

pub const DEFAULT_HOTSPOTS_LIMIT: usize = 10;

/// So many contributors to a score are named.
pub const KEY_CONTRIBUTOR_LIMIT: usize = 3;

/// So many limitations of a score are named in a list of files.
pub const LISTED_LIMITATION_LIMIT: usize = 2;

/// Which files are listed.
#[derive(Debug, Clone, Copy, PartialEq, Eq, Structural)]
pub struct HotspotsOptions {
    pub limit: usize,
    pub exclude_generated: bool,
    pub exclude_vendor: bool,
}

/// What is measured of a file; the share is printed as a percentage with two decimals.
#[derive(Debug, Clone, PartialEq, Eq)]
pub struct RawScoreMetrics {
    pub path: String,
    pub byte_size: Option<u64>,
    pub line_count: Option<u64>,
    pub commits_per_file: Option<u64>,
    pub total_churn_lines: Option<u64>,
    pub recent_churn_lines: Option<u64>,
    pub author_count: Option<u64>,
    pub dominant_owner_share: Option<Real>,
    pub co_changed_file_count: Option<u64>,
}

/// What is measured of a file, between zero and one, printed with three decimals.
#[derive(Debug, Clone, PartialEq, Eq)]
pub struct NormalizedScoreMetrics {
    pub size: Option<Real>,
    pub churn: Option<Real>,
    pub recent_churn: Option<Real>,
    pub ownership: Option<Real>,
    pub coupling: Option<Real>,
}

/// One of the measures.
#[derive(Debug, Clone, Copy, PartialEq, Eq, Structural)]
pub enum NormalizedMetric {
    Size,
    Churn,
    RecentChurn,
    Ownership,
    Coupling,
}

/// What one measure adds to a score, printed with three decimals.
#[derive(Debug, Clone, PartialEq, Eq)]
pub struct WeightedTerm {
    pub name: String,
    pub metric: NormalizedMetric,
    pub weight: Real,
    pub normalized_input: Option<Real>,
    pub weighted_contribution: Real,
}

/// Something that limits what a score says.
#[derive(Debug, Clone, PartialEq, Eq)]
pub struct ScoreLimitation {
    pub message: String,
}

/// The formula of a score.
#[derive(Debug, Clone, PartialEq, Eq)]
pub struct FormulaVersion {
    pub id: String,
    pub major: u64,
    pub minor: u64,
}

/// The score of a file, printed with three decimals.
#[derive(Debug, Clone, PartialEq, Eq)]
pub struct HotspotScore {
    pub path: String,
    pub value: Real,
    pub formula_version: FormulaVersion,
    pub raw_metrics: RawScoreMetrics,
    pub normalized_metrics: NormalizedScoreMetrics,
    pub weighted_terms: Vec<WeightedTerm>,
    pub limitations: Vec<ScoreLimitation>,
}

/// A score and its rank.
#[derive(Debug, Clone, PartialEq, Eq)]
pub struct RankedHotspotScore {
    pub rank: u64,
    pub score: HotspotScore,
}

/// What adds to a score.
#[derive(Debug, Clone, PartialEq, Eq)]
pub struct KeyContributor {
    pub name: String,
    pub contribution: Real,
}

impl Default for HotspotsOptions {
    fn default() -> (out: HotspotsOptions)
        ensures
            out == (HotspotsOptions {
                limit: DEFAULT_HOTSPOTS_LIMIT,
                exclude_generated: false,
                exclude_vendor: false,
            }),
    {
        HotspotsOptions {
            limit: DEFAULT_HOTSPOTS_LIMIT,
            exclude_generated: false,
            exclude_vendor: false,
        }
    }
}

/// What [`RawScoreMetrics`] stands for.
#[verifier::ext_equal]
pub struct RawScoreMetricsView {
    pub path: Seq<char>,
    pub byte_size: Option<u64>,
    pub line_count: Option<u64>,
    pub commits_per_file: Option<u64>,
    pub total_churn_lines: Option<u64>,
    pub recent_churn_lines: Option<u64>,
    pub author_count: Option<u64>,
    pub dominant_owner_share: Option<RealView>,
    pub co_changed_file_count: Option<u64>,
}

impl DeepView for RawScoreMetrics {
    type V = RawScoreMetricsView;

    open spec fn deep_view(&self) -> RawScoreMetricsView {
        RawScoreMetricsView {
            path: self.path@,
            byte_size: self.byte_size.deep_view(),
            line_count: self.line_count.deep_view(),
            commits_per_file: self.commits_per_file.deep_view(),
            total_churn_lines: self.total_churn_lines.deep_view(),
            recent_churn_lines: self.recent_churn_lines.deep_view(),
            author_count: self.author_count.deep_view(),
            dominant_owner_share: self.dominant_owner_share.deep_view(),
            co_changed_file_count: self.co_changed_file_count.deep_view(),
        }
    }
}

/// What [`NormalizedScoreMetrics`] stands for.
#[verifier::ext_equal]
pub struct NormalizedScoreMetricsView {
    pub size: Option<RealView>,
    pub churn: Option<RealView>,
    pub recent_churn: Option<RealView>,
    pub ownership: Option<RealView>,
    pub coupling: Option<RealView>,
}

impl DeepView for NormalizedScoreMetrics {
    type V = NormalizedScoreMetricsView;

    open spec fn deep_view(&self) -> NormalizedScoreMetricsView {
        NormalizedScoreMetricsView {
            size: self.size.deep_view(),
            churn: self.churn.deep_view(),
            recent_churn: self.recent_churn.deep_view(),
            ownership: self.ownership.deep_view(),
            coupling: self.coupling.deep_view(),
        }
    }
}

/// What [`WeightedTerm`] stands for.
#[verifier::ext_equal]
pub struct WeightedTermView {
    pub name: Seq<char>,
    pub metric: NormalizedMetric,
    pub weight: RealView,
    pub normalized_input: Option<RealView>,
    pub weighted_contribution: RealView,
}

impl DeepView for WeightedTerm {
    type V = WeightedTermView;

    open spec fn deep_view(&self) -> WeightedTermView {
        WeightedTermView {
            name: self.name@,
            metric: self.metric,
            weight: self.weight.deep_view(),
            normalized_input: self.normalized_input.deep_view(),
            weighted_contribution: self.weighted_contribution.deep_view(),
        }
    }
}

/// What [`ScoreLimitation`] stands for.
#[verifier::ext_equal]
pub struct ScoreLimitationView {
    pub message: Seq<char>,
}

impl DeepView for ScoreLimitation {
    type V = ScoreLimitationView;

    open spec fn deep_view(&self) -> ScoreLimitationView {
        ScoreLimitationView {
            message: self.message@,
        }
    }
}

/// What [`FormulaVersion`] stands for.
#[verifier::ext_equal]
pub struct FormulaVersionView {
    pub id: Seq<char>,
    pub major: u64,
    pub minor: u64,
}

impl DeepView for FormulaVersion {
    type V = FormulaVersionView;

    open spec fn deep_view(&self) -> FormulaVersionView {
        FormulaVersionView {
            id: self.id@,
            major: self.major,
            minor: self.minor,
        }
    }
}

/// What [`HotspotScore`] stands for.
#[verifier::ext_equal]
pub struct HotspotScoreView {
    pub path: Seq<char>,
    pub value: RealView,
    pub formula_version: FormulaVersionView,
    pub raw_metrics: RawScoreMetricsView,
    pub normalized_metrics: NormalizedScoreMetricsView,
    pub weighted_terms: Seq<WeightedTermView>,
    pub limitations: Seq<ScoreLimitationView>,
}

impl DeepView for HotspotScore {
    type V = HotspotScoreView;

    open spec fn deep_view(&self) -> HotspotScoreView {
        HotspotScoreView {
            path: self.path@,
            value: self.value.deep_view(),
            formula_version: self.formula_version.deep_view(),
            raw_metrics: self.raw_metrics.deep_view(),
            normalized_metrics: self.normalized_metrics.deep_view(),
            weighted_terms: self.weighted_terms.deep_view(),
            limitations: self.limitations.deep_view(),
        }
    }
}

/// What [`RankedHotspotScore`] stands for.
#[verifier::ext_equal]
pub struct RankedHotspotScoreView {
    pub rank: u64,
    pub score: HotspotScoreView,
}

impl DeepView for RankedHotspotScore {
    type V = RankedHotspotScoreView;

    open spec fn deep_view(&self) -> RankedHotspotScoreView {
        RankedHotspotScoreView {
            rank: self.rank,
            score: self.score.deep_view(),
        }
    }
}

/// What [`KeyContributor`] stands for.
#[verifier::ext_equal]
pub struct KeyContributorView {
    pub name: Seq<char>,
    pub contribution: RealView,
}

impl DeepView for KeyContributor {
    type V = KeyContributorView;

    open spec fn deep_view(&self) -> KeyContributorView {
        KeyContributorView {
            name: self.name@,
            contribution: self.contribution.deep_view(),
        }
    }
}

impl Ordered for KeyContributor {
    /// The largest contribution first, then by name.
    open spec fn key(v: KeyContributorView) -> Seq<KeyPart> {
        seq![
            KeyPart::Number(-(measure::total_place(v.contribution.bits) as int)),
            KeyPart::Text(v.name),
        ]
    }

    fn comes_before(&self, other: &Self) -> (r: bool) {
        proof {
            reveal_with_fuel(order::key_lt_from, 3);
        }
        if measure::total_rank(other.contribution.bits) < measure::total_rank(self.contribution.bits) {
            return true;
        }
        if measure::total_rank(self.contribution.bits) < measure::total_rank(other.contribution.bits) {
            return false;
        }
        text::precedes(self.name.as_str(), other.name.as_str())
    }
}

/// Whether a file is generated, and whether it is vendored.
#[derive(Debug, Clone, Copy, PartialEq, Eq, Structural)]
pub struct FileFlags {
    pub is_generated: bool,
    pub is_vendor: bool,
}

/// The flags of the file at a path: of the last one, where there is more than one.
pub open spec fn flags_of(files: Seq<FileRecordView>, path: Seq<char>) -> FileFlags
    decreases files.len(),
{
    if files.len() == 0 {
        FileFlags { is_generated: false, is_vendor: false }
    } else if files.last().path == path {
        FileFlags {
            is_generated: files.last().is_generated,
            is_vendor: files.last().is_vendor,
        }
    } else {
        flags_of(files.drop_last(), path)
    }
}

/// Whether the options let a file through.
pub open spec fn passes_filters(
    ranked: RankedHotspotScoreView,
    files: Seq<FileRecordView>,
    options: HotspotsOptions,
) -> bool {
    let flags = flags_of(files, ranked.score.path);
    (!options.exclude_generated || !flags.is_generated) && (!options.exclude_vendor
        || !flags.is_vendor)
}

/// The first of the scores that the options let through, up to the limit.
pub open spec fn selected(
    ranked: Seq<RankedHotspotScoreView>,
    files: Seq<FileRecordView>,
    options: HotspotsOptions,
) -> Seq<RankedHotspotScoreView>
    decreases ranked.len(),
{
    if ranked.len() == 0 {
        Seq::empty()
    } else {
        let before = selected(ranked.drop_last(), files, options);
        if before.len() < options.limit && passes_filters(ranked.last(), files, options) {
            before.push(ranked.last())
        } else {
            before
        }
    }
}

/// Without filters, the first scores up to the limit are selected.
pub proof fn selection_without_filters(
    ranked: Seq<RankedHotspotScoreView>,
    files: Seq<FileRecordView>,
    options: HotspotsOptions,
)
    requires
        !options.exclude_generated,
        !options.exclude_vendor,
    ensures
        selected(ranked, files, options) == if ranked.len() > options.limit {
            ranked.take(options.limit as int)
        } else {
            ranked
        },
    decreases ranked.len(),
{
    if ranked.len() > 0 {
        let front = ranked.drop_last();
        selection_without_filters(front, files, options);
        if ranked.len() > options.limit {
            if front.len() > options.limit {
                assert(front.take(options.limit as int) =~= ranked.take(options.limit as int));
            } else {
                assert(front =~= ranked.take(options.limit as int));
            }
        } else {
            assert(front.push(ranked.last()) =~= ranked);
        }
    }
}

fn flag_table(files: &Vec<FileRecord>) -> (out: TextMap<FileFlags>)
    ensures
        out.wf(),
        forall|path: Seq<char>| #[trigger]
            flags_of(files.deep_view(), path) == (if out@.dom().contains(path) {
                out@[path]
            } else {
                FileFlags { is_generated: false, is_vendor: false }
            }),
{
    let ghost all = files.deep_view();
    let mut out: TextMap<FileFlags> = TextMap::new();
    let mut i: usize = 0;
    while i < files.len()
        invariant
            i <= files.len(),
            all == files.deep_view(),
            out.wf(),
            forall|path: Seq<char>| #[trigger]
                flags_of(all.take(i as int), path) == (if out@.dom().contains(path) {
                    out@[path]
                } else {
                    FileFlags { is_generated: false, is_vendor: false }
                }),
        decreases files.len() - i,
    {
        let file = &files[i];
        let ghost before = out@;
        let ghost shorter = all.take(i as int);
        assert(all.take(i + 1).drop_last() =~= shorter);
        assert(all.take(i + 1).last() == file.deep_view());
        out.insert(
            file.path.as_str(),
            FileFlags { is_generated: file.is_generated, is_vendor: file.is_vendor },
        );
        i = i + 1;
        proof {
            assert forall|path: Seq<char>| #[trigger]
                flags_of(all.take(i as int), path) == (if out@.dom().contains(path) {
                    out@[path]
                } else {
                    FileFlags { is_generated: false, is_vendor: false }
                }) by {
                let earlier = flags_of(shorter, path);
            }
        }
    }
    assert(all.take(i as int) =~= all);
    out
}

/// The first of the scores that the options let through, up to the limit.
pub fn select_hotspots_for_output<'a>(
    ranked: &'a Vec<RankedHotspotScore>,
    files: &Vec<FileRecord>,
    options: HotspotsOptions,
) -> (out: Vec<&'a RankedHotspotScore>)
    ensures
        out.deep_view() == selected(ranked.deep_view(), files.deep_view(), options),
{
    let ghost all = ranked.deep_view();
    let ghost known = files.deep_view();
    let flags = flag_table(files);
    let mut out: Vec<&'a RankedHotspotScore> = Vec::new();
    let mut i: usize = 0;
    assert(out.deep_view() =~= selected(all.take(0), known, options));
    while i < ranked.len()
        invariant
            i <= ranked.len(),
            all == ranked.deep_view(),
            known == files.deep_view(),
            flags.wf(),
            forall|path: Seq<char>| #[trigger]
                flags_of(known, path) == (if flags@.dom().contains(path) {
                    flags@[path]
                } else {
                    FileFlags { is_generated: false, is_vendor: false }
                }),
            out.deep_view() == selected(all.take(i as int), known, options),
        decreases ranked.len() - i,
    {
        let score = &ranked[i];
        assert(all.take(i + 1).drop_last() =~= all.take(i as int));
        assert(all.take(i + 1).last() == score.deep_view());
        let own = match flags.get(score.score.path.as_str()) {
            Some(own) => *own,
            None => FileFlags { is_generated: false, is_vendor: false },
        };
        assert(own == flags_of(known, score.deep_view().score.path));
        if out.len() < options.limit && (!options.exclude_generated || !own.is_generated) && (
        !options.exclude_vendor || !own.is_vendor) {
            let ghost before = out.deep_view();
            out.push(score);
            assert(out.deep_view() =~= before.push(score.deep_view()));
        }
        i = i + 1;
    }
    assert(all.take(i as int) =~= all);
    out
}

/// Whether the options differ from the default.
pub open spec fn is_filtered(options: HotspotsOptions) -> bool {
    options.limit != DEFAULT_HOTSPOTS_LIMIT || options.exclude_generated || options.exclude_vendor
}

/// Whether the options differ from the default.
pub fn has_active_hotspot_output_filter(options: HotspotsOptions) -> (r: bool)
    ensures
        r == is_filtered(options),
{
    options.limit != DEFAULT_HOTSPOTS_LIMIT || options.exclude_generated || options.exclude_vendor
}

/// The filters, each in words.
pub open spec fn filter_list(options: HotspotsOptions) -> Seq<Seq<char>> {
    let limit = if options.limit != DEFAULT_HOTSPOTS_LIMIT {
        seq!["limit "@ + numbers::decimal(options.limit as nat)]
    } else {
        Seq::empty()
    };
    let generated = if options.exclude_generated {
        seq!["exclude generated files"@]
    } else {
        Seq::empty()
    };
    let vendor = if options.exclude_vendor {
        seq!["exclude vendor files"@]
    } else {
        Seq::empty()
    };
    limit + generated + vendor
}

/// Renders the filters.
pub fn render_hotspot_output_filters(options: HotspotsOptions) -> (out: String)
    ensures
        out@ == text::joined(filter_list(options), ", "@),
{
    let mut filters: Vec<String> = Vec::new();
    if options.limit != DEFAULT_HOTSPOTS_LIMIT {
        let mut limit = "limit ".to_string();
        let words = &mut limit;
        numbers::push_decimal(words, options.limit as u64);
        filters.push(limit);
    }
    if options.exclude_generated {
        filters.push("exclude generated files".to_string());
    }
    if options.exclude_vendor {
        filters.push("exclude vendor files".to_string());
    }
    assert(filters.deep_view() =~= filter_list(options));
    text::join(filters.as_slice(), ", ")
}

/// A count, or that there is none.
pub open spec fn count_words(value: Option<u64>) -> Seq<char> {
    match value {
        Some(value) => numbers::decimal(value as nat),
        None => "unavailable"@,
    }
}

/// Renders a count.
pub fn render_optional_count(value: Option<u64>) -> (out: String)
    ensures
        out@ == count_words(value),
{
    match value {
        Some(value) => numbers::decimal_text(value),
        None => "unavailable".to_string(),
    }
}

/// A number as it is printed, or that there is none.
pub open spec fn score_words(value: Option<RealView>) -> Seq<char> {
    match value {
        Some(value) => value.text,
        None => "unavailable"@,
    }
}

fn render_optional_score(value: &Option<Real>) -> (out: String)
    ensures
        out@ == score_words(value.deep_view()),
{
    match value {
        Some(value) => value.text.clone(),
        None => "unavailable".to_string(),
    }
}

/// A percentage as it is printed, or that there is none.
pub open spec fn share_words(value: Option<RealView>) -> Seq<char> {
    match value {
        Some(value) => value.text + "%"@,
        None => "unavailable"@,
    }
}

fn render_optional_share(value: &Option<Real>) -> (out: String)
    ensures
        out@ == share_words(value.deep_view()),
{
    match value {
        Some(value) => {
            let mut out = value.text.clone();
            out.append("%");
            out
        },
        None => "unavailable".to_string(),
    }
}

/// The size of a file: in lines, else in bytes.
pub open spec fn size_words(metrics: RawScoreMetricsView) -> Seq<char> {
    match (metrics.line_count, metrics.byte_size) {
        (Some(lines), _) => numbers::decimal(lines as nat) + " lines"@,
        (None, Some(bytes)) => numbers::decimal(bytes as nat) + " bytes"@,
        (None, None) => "size unavailable"@,
    }
}

/// Renders the size of a file.
pub fn render_size_summary(metrics: &RawScoreMetrics) -> (out: String)
    ensures
        out@ == size_words(metrics.deep_view()),
{
    match (metrics.line_count, metrics.byte_size) {
        (Some(lines), _) => {
            let mut out = numbers::decimal_text(lines);
            out.append(" lines");
            out
        },
        (None, Some(bytes)) => {
            let mut out = numbers::decimal_text(bytes);
            out.append(" bytes");
            out
        },
        (None, None) => "size unavailable".to_string(),
    }
}

/// What is measured of a file, in words.
pub open spec fn raw_words(metrics: RawScoreMetricsView) -> Seq<char> {
    count_words(metrics.commits_per_file)
        + " commits, "@
        + count_words(metrics.total_churn_lines)
        + " churn lines, "@
        + count_words(metrics.recent_churn_lines)
        + " recent churn lines, "@
        + count_words(metrics.author_count)
        + " authors, "@
        + count_words(metrics.co_changed_file_count)
        + " co-changed files, "@
        + size_words(metrics)
}

/// Renders what is measured of a file.
pub fn render_hotspot_raw_summary(metrics: &RawScoreMetrics) -> (output: String)
    ensures
        output@ == raw_words(metrics.deep_view()),
{
    let mut text = render_optional_count(metrics.commits_per_file);
    let out = &mut text;
    out.append(" commits, ");
    out.append(render_optional_count(metrics.total_churn_lines).as_str());
    out.append(" churn lines, ");
    out.append(render_optional_count(metrics.recent_churn_lines).as_str());
    out.append(" recent churn lines, ");
    out.append(render_optional_count(metrics.author_count).as_str());
    out.append(" authors, ");
    out.append(render_optional_count(metrics.co_changed_file_count).as_str());
    out.append(" co-changed files, ");
    out.append(render_size_summary(metrics).as_str());
    text
}

/// What adds to a score, in the order of the terms.
pub open spec fn contributors(terms: Seq<WeightedTermView>) -> Seq<KeyContributorView>
    decreases terms.len(),
{
    if terms.len() == 0 {
        Seq::empty()
    } else {
        let before = contributors(terms.drop_last());
        if measure::is_less(0, terms.last().weighted_contribution.bits) {
            before.push(
                KeyContributorView {
                    name: terms.last().name,
                    contribution: terms.last().weighted_contribution,
                },
            )
        } else {
            before
        }
    }
}

/// What adds most to a score.
pub open spec fn key_contributors(terms: Seq<WeightedTermView>) -> Seq<KeyContributorView> {
    let ranked = order::sorted_by(contributors(terms), order::by_key::<KeyContributor>());
    if ranked.len() > KEY_CONTRIBUTOR_LIMIT {
        ranked.take(KEY_CONTRIBUTOR_LIMIT as int)
    } else {
        ranked
    }
}

/// Contributors, each in words.
pub open spec fn contributor_list(ranked: Seq<KeyContributorView>) -> Seq<Seq<char>> {
    Seq::new(ranked.len(), |i: int| ranked[i].name + " "@ + ranked[i].contribution.text)
}

/// What adds most to a score, in words.
pub open spec fn contributor_words(score: HotspotScoreView) -> Seq<char> {
    let key = key_contributors(score.weighted_terms);
    if key.len() == 0 {
        "none observed"@
    } else {
        text::joined(contributor_list(key), ", "@)
    }
}

fn contributors_from_terms(terms: &Vec<WeightedTerm>) -> (out: Vec<KeyContributor>)
    ensures
        out.deep_view() == contributors(terms.deep_view()),
{
    let ghost all = terms.deep_view();
    let mut out: Vec<KeyContributor> = Vec::new();
    let mut i: usize = 0;
    assert(out.deep_view() =~= contributors(all.take(0)));
    while i < terms.len()
        invariant
            i <= terms.len(),
            all == terms.deep_view(),
            out.deep_view() == contributors(all.take(i as int)),
        decreases terms.len() - i,
    {
        let term = &terms[i];
        assert(all.take(i + 1).drop_last() =~= all.take(i as int));
        assert(all.take(i + 1).last() == term.deep_view());
        if measure::less(0, term.weighted_contribution.bits) {
            let ghost before = out.deep_view();
            let one = KeyContributor {
                name: term.name.clone(),
                contribution: measure::copy(&term.weighted_contribution),
            };
            out.push(one);
            assert(out.deep_view() =~= before.push(one.deep_view()));
        }
        i = i + 1;
    }
    assert(all.take(i as int) =~= all);
    out
}

/// Renders what adds most to a score.
pub fn render_key_contributors(score: &HotspotScore) -> (out: String)
    ensures
        out@ == contributor_words(score.deep_view()),
{
    let ranked = order::sort(contributors_from_terms(&score.weighted_terms));
    let ghost all = ranked.deep_view();
    let ghost key = key_contributors(score.deep_view().weighted_terms);
    if ranked.len() == 0 {
        return "none observed".to_string();
    }
    let mut parts: Vec<String> = Vec::new();
    let mut i: usize = 0;
    assert(parts.deep_view() =~= contributor_list(key).take(0));
    while i < ranked.len() && i < KEY_CONTRIBUTOR_LIMIT
        invariant
            i <= ranked.len(),
            i <= KEY_CONTRIBUTOR_LIMIT,
            all == ranked.deep_view(),
            key == (if all.len() > KEY_CONTRIBUTOR_LIMIT {
                all.take(KEY_CONTRIBUTOR_LIMIT as int)
            } else {
                all
            }),
            parts.deep_view() == contributor_list(key).take(i as int),
        decreases ranked.len() - i,
    {
        let ghost before = parts.deep_view();
        assert(key[i as int] == ranked@[i as int].deep_view());
        let mut part = ranked[i].name.clone();
        part.append(" ");
        part.append(ranked[i].contribution.text.as_str());
        parts.push(part);
        assert(parts.deep_view() =~= before.push(part@));
        i = i + 1;
        assert(parts.deep_view() =~= contributor_list(key).take(i as int));
    }
    assert(contributor_list(key).take(i as int) =~= contributor_list(key));
    text::join(parts.as_slice(), ", ")
}

/// The messages of the first limitations of a score.
pub open spec fn listed_limitations(limitations: Seq<ScoreLimitationView>) -> Seq<Seq<char>> {
    Seq::new(
        if limitations.len() > LISTED_LIMITATION_LIMIT {
            LISTED_LIMITATION_LIMIT as nat
        } else {
            limitations.len()
        },
        |i: int| limitations[i].message,
    )
}

/// What limits a score, in words.
pub open spec fn limitation_words(score: HotspotScoreView) -> Seq<char> {
    if score.limitations.len() == 0 {
        "uses local Git history only; advisory score"@
    } else {
        text::joined(listed_limitations(score.limitations), "; "@)
    }
}

/// Renders what limits a score.
pub fn render_hotspot_limitations(score: &HotspotScore) -> (out: String)
    ensures
        out@ == limitation_words(score.deep_view()),
{
    let ghost wanted = listed_limitations(score.limitations.deep_view());
    if score.limitations.len() == 0 {
        return "uses local Git history only; advisory score".to_string();
    }
    let mut parts: Vec<String> = Vec::new();
    let mut i: usize = 0;
    assert(parts.deep_view() =~= wanted.take(0));
    while i < score.limitations.len() && i < LISTED_LIMITATION_LIMIT
        invariant
            i <= score.limitations.len(),
            i <= LISTED_LIMITATION_LIMIT,
            wanted == listed_limitations(score.limitations.deep_view()),
            parts.deep_view() == wanted.take(i as int),
        decreases score.limitations.len() - i,
    {
        let ghost before = parts.deep_view();
        let message = score.limitations[i].message.clone();
        assert(score.limitations.deep_view()[i as int].message == message@);
        parts.push(message);
        assert(parts.deep_view() =~= before.push(message@));
        i = i + 1;
        assert(parts.deep_view() =~= wanted.take(i as int));
    }
    assert(wanted.take(i as int) =~= wanted);
    text::join(parts.as_slice(), "; ")
}

/// What a measure is called.
pub open spec fn metric_name(metric: NormalizedMetric) -> Seq<char> {
    match metric {
        NormalizedMetric::Size => "size"@,
        NormalizedMetric::Churn => "churn"@,
        NormalizedMetric::RecentChurn => "recent_churn"@,
        NormalizedMetric::Ownership => "ownership"@,
        NormalizedMetric::Coupling => "coupling"@,
    }
}

/// What a measure is called.
pub fn normalized_metric_name(metric: NormalizedMetric) -> (out: &'static str)
    ensures
        out@ == metric_name(metric),
{
    match metric {
        NormalizedMetric::Size => "size",
        NormalizedMetric::Churn => "churn",
        NormalizedMetric::RecentChurn => "recent_churn",
        NormalizedMetric::Ownership => "ownership",
        NormalizedMetric::Coupling => "coupling",
    }
}

/// A listed file.
pub open spec fn row_text(out: Seq<char>, ranked: RankedHotspotScoreView) -> Seq<char> {
    out
        + "\n"@
        + text::aligned(numbers::decimal(ranked.rank as nat), 4)
        + "  "@
        + ranked.score.value.text
        + "  "@
        + ranked.score.path
        + "\n      key contributors: "@
        + contributor_words(ranked.score)
        + "\n      why: "@
        + raw_words(ranked.score.raw_metrics)
        + "\n      limitations: "@
        + limitation_words(ranked.score)
}

fn push_row(out: &mut String, ranked: &RankedHotspotScore)
    ensures
        final(out)@ == row_text(old(out)@, ranked.deep_view()),
{
    out.append("\n");
    let rank = numbers::decimal_text(ranked.rank);
    text::push_aligned(out, rank.as_str(), 4);
    out.append("  ");
    out.append(ranked.score.value.text.as_str());
    out.append("  ");
    out.append(ranked.score.path.as_str());
    out.append("\n      key contributors: ");
    out.append(render_key_contributors(&ranked.score).as_str());
    out.append("\n      why: ");
    out.append(render_hotspot_raw_summary(&ranked.score.raw_metrics).as_str());
    out.append("\n      limitations: ");
    out.append(render_hotspot_limitations(&ranked.score).as_str());
}

/// The listed files.
pub open spec fn rows_text(out: Seq<char>, rows: Seq<RankedHotspotScoreView>) -> Seq<char>
    decreases rows.len(),
{
    if rows.len() == 0 {
        out
    } else {
        row_text(rows_text(out, rows.drop_last()), rows.last())
    }
}

/// How scores are to be read.
pub open spec fn notes_text(out: Seq<char>, recent_window_days: i64) -> Seq<char> {
    out
        + "\n\ncalculation notes\n  - Scores are advisory signals for investigation, not proof that a file is defective.\n  - Inputs come from scanner facts and local Git history reachable from HEAD only.\n  - Recent churn uses the "@
        + numbers::signed_decimal(recent_window_days as int)
        + "-day window before the HEAD committer timestamp.\n  - Missing normalized inputs contribute 0.0; formula weights are not redistributed."@
}

fn push_notes(out: &mut String, recent_window_days: i64)
    ensures
        final(out)@ == notes_text(old(out)@, recent_window_days),
{
    out.append("\n\ncalculation notes\n  - Scores are advisory signals for investigation, not proof that a file is defective.\n  - Inputs come from scanner facts and local Git history reachable from HEAD only.\n  - Recent churn uses the ");
    numbers::push_signed_decimal(out, recent_window_days);
    out.append("-day window before the HEAD committer timestamp.\n  - Missing normalized inputs contribute 0.0; formula weights are not redistributed.");
}

/// The list of the riskiest files.
pub open spec fn hotspots_text(
    formula_id: Seq<char>,
    ranked: Seq<RankedHotspotScoreView>,
    displayed: Seq<RankedHotspotScoreView>,
    options: HotspotsOptions,
    recent_window_days: i64,
) -> Seq<char> {
    let head =
        "Hotpath hotspots\nscope: current scanned files plus local Git history reachable from HEAD\nformula: "@
            + formula_id
            + "\nfiles ranked: "@
            + numbers::decimal(ranked.len())
            + " (showing "@
            + numbers::decimal(displayed.len())
            + ")"@;
    let filtered = if is_filtered(options) {
        head + "\noutput filters: "@ + text::joined(filter_list(options), ", "@)
    } else {
        head
    };
    let titled = filtered + "\n\nrank  score  path"@;
    let rows = if displayed.len() == 0 {
        titled + "\n  none"@
    } else {
        rows_text(titled, displayed)
    };
    let noted = notes_text(rows, recent_window_days);
    if is_filtered(options) {
        noted + "\n  - Output filters affect displayed rows only; persisted hotspot scores keep the full ranked set and original ranks."@
    } else {
        noted
    }
}

/// Renders the list of the riskiest files.
pub fn render_hotspots(
    formula_id: &str,
    ranked: &Vec<RankedHotspotScore>,
    displayed: &Vec<&RankedHotspotScore>,
    options: HotspotsOptions,
    recent_window_days: i64,
) -> (output: String)
    ensures
        output@ == hotspots_text(
            formula_id@,
            ranked.deep_view(),
            displayed.deep_view(),
            options,
            recent_window_days,
        ),
{
    let ghost all = displayed.deep_view();
    let mut text = "Hotpath hotspots\nscope: current scanned files plus local Git history reachable from HEAD\nformula: ".to_string();
    let out = &mut text;
    out.append(formula_id);
    out.append("\nfiles ranked: ");
    numbers::push_decimal(out, ranked.len() as u64);
    out.append(" (showing ");
    numbers::push_decimal(out, displayed.len() as u64);
    out.append(")");
    if has_active_hotspot_output_filter(options) {
        out.append("\noutput filters: ");
        let filters = render_hotspot_output_filters(options);
        out.append(filters.as_str());
    }
    out.append("\n\nrank  score  path");
    let ghost start = out@;
    if displayed.len() == 0 {
        out.append("\n  none");
    } else {
        let mut i: usize = 0;
        while i < displayed.len()
            invariant
                i <= displayed.len(),
                all == displayed.deep_view(),
                out@ == rows_text(start, all.take(i as int)),
            decreases displayed.len() - i,
        {
            assert(all.take(i + 1).drop_last() =~= all.take(i as int));
            assert(all.take(i + 1).last() == displayed@[i as int].deep_view());
            push_row(out, displayed[i]);
            i = i + 1;
        }
        assert(all.take(i as int) =~= all);
    }
    push_notes(out, recent_window_days);
    if has_active_hotspot_output_filter(options) {
        out.append("\n  - Output filters affect displayed rows only; persisted hotspot scores keep the full ranked set and original ranks.");
    }
    text
}

/// Lists the riskiest files: those of the ranked scores that the options let through.
pub fn hotspots(
    formula_id: &str,
    ranked: &Vec<RankedHotspotScore>,
    files: &Vec<FileRecord>,
    options: HotspotsOptions,
    recent_window_days: i64,
) -> (output: String)
    ensures
        output@ == hotspots_text(
            formula_id@,
            ranked.deep_view(),
            selected(ranked.deep_view(), files.deep_view(), options),
            options,
            recent_window_days,
        ),
{
    let displayed = select_hotspots_for_output(ranked, files, options);
    render_hotspots(formula_id, ranked, &displayed, options, recent_window_days)
}

/// Terms as lines.
pub open spec fn term_lines(out: Seq<char>, items: Seq<WeightedTermView>) -> Seq<char>
    decreases items.len(),
{
    if items.len() == 0 {
        out
    } else {
        let item = items.last();
        term_lines(out, items.drop_last())
            + "\n  "@
            + item.name
            + ": weight "@
            + item.weight.text
            + " * "@
            + metric_name(item.metric)
            + " "@
            + score_words(item.normalized_input)
            + " = "@
            + item.weighted_contribution.text
    }
}

fn push_term_lines(out: &mut String, items: &Vec<WeightedTerm>)
    ensures
        final(out)@ == term_lines(old(out)@, items.deep_view()),
{
    let ghost start = out@;
    let ghost all = items.deep_view();
    let mut i: usize = 0;
    while i < items.len()
        invariant
            i <= items.len(),
            all == items.deep_view(),
            out@ == term_lines(start, all.take(i as int)),
        decreases items.len() - i,
    {
        let item = &items[i];
        assert(all.take(i + 1).drop_last() =~= all.take(i as int));
        assert(all.take(i + 1).last() == item.deep_view());
        out.append("\n  ");
        out.append(item.name.as_str());
        out.append(": weight ");
        out.append(item.weight.text.as_str());
        out.append(" * ");
        out.append(normalized_metric_name(item.metric));
        out.append(" ");
        out.append(render_optional_score(&item.normalized_input).as_str());
        out.append(" = ");
        out.append(item.weighted_contribution.text.as_str());
        i = i + 1;
    }
    assert(all.take(i as int) =~= all);
}

/// Limitations as lines.
pub open spec fn limitation_lines(out: Seq<char>, items: Seq<ScoreLimitationView>) -> Seq<char>
    decreases items.len(),
{
    if items.len() == 0 {
        out
    } else {
        let item = items.last();
        limitation_lines(out, items.drop_last())
            + "\n  - "@
            + item.message
    }
}

fn push_limitation_lines(out: &mut String, items: &Vec<ScoreLimitation>)
    ensures
        final(out)@ == limitation_lines(old(out)@, items.deep_view()),
{
    let ghost start = out@;
    let ghost all = items.deep_view();
    let mut i: usize = 0;
    while i < items.len()
        invariant
            i <= items.len(),
            all == items.deep_view(),
            out@ == limitation_lines(start, all.take(i as int)),
        decreases items.len() - i,
    {
        let item = &items[i];
        assert(all.take(i + 1).drop_last() =~= all.take(i as int));
        assert(all.take(i + 1).last() == item.deep_view());
        out.append("\n  - ");
        out.append(item.message.as_str());
        i = i + 1;
    }
    assert(all.take(i as int) =~= all);
}

/// How a score comes about.
pub open spec fn explanation(score: HotspotScoreView, recent_window_days: i64) -> Seq<char> {
    let raw = score.raw_metrics;
    let normalized = score.normalized_metrics;
    let head =
        "Hotpath score explanation\npath: "@
            + score.path
            + "\nscope: current scanned file plus local Git history reachable from HEAD\nformula version: "@
            + score.formula_version.id
            + " (major "@
            + numbers::decimal(score.formula_version.major as nat)
            + ", minor "@
            + numbers::decimal(score.formula_version.minor as nat)
            + ")\nfinal score: "@
            + score.value.text
            + "\n\nraw metrics"@
            + "\n  byte size: "@
            + count_words(raw.byte_size)
            + "\n  line count: "@
            + count_words(raw.line_count)
            + "\n  commits per file: "@
            + count_words(raw.commits_per_file)
            + "\n  total churn lines: "@
            + count_words(raw.total_churn_lines)
            + "\n  recent churn lines ("@
            + numbers::signed_decimal(recent_window_days as int)
            + " days): "@
            + count_words(raw.recent_churn_lines)
            + "\n  author count: "@
            + count_words(raw.author_count)
            + "\n  dominant owner share: "@
            + share_words(raw.dominant_owner_share)
            + "\n  co-changed file count: "@
            + count_words(raw.co_changed_file_count)
            + "\n\nnormalized metrics"@
            + "\n  size: "@
            + score_words(normalized.size)
            + "\n  churn: "@
            + score_words(normalized.churn)
            + "\n  recent_churn: "@
            + score_words(normalized.recent_churn)
            + "\n  ownership: "@
            + score_words(normalized.ownership)
            + "\n  coupling: "@
            + score_words(normalized.coupling)
            + "\n\nweighted contributions"@;
    let terms = term_lines(head, score.weighted_terms) + "\n\nlimitations"@;
    let limited = if score.limitations.len() == 0 {
        terms + "\n  - Uses local Git history only; advisory score."@
    } else {
        limitation_lines(terms, score.limitations)
    };
    notes_text(limited, recent_window_days)
}

/// Renders how a score comes about.
pub fn render_explain(score: &HotspotScore, recent_window_days: i64) -> (output: String)
    ensures
        output@ == explanation(score.deep_view(), recent_window_days),
{
    let raw = &score.raw_metrics;
    let normalized = &score.normalized_metrics;
    let mut text = "Hotpath score explanation\npath: ".to_string();
    let out = &mut text;
    out.append(score.path.as_str());
    out.append("\nscope: current scanned file plus local Git history reachable from HEAD\nformula version: ");
    out.append(score.formula_version.id.as_str());
    out.append(" (major ");
    numbers::push_decimal(out, score.formula_version.major);
    out.append(", minor ");
    numbers::push_decimal(out, score.formula_version.minor);
    out.append(")\nfinal score: ");
    out.append(score.value.text.as_str());
    out.append("\n\nraw metrics");
    out.append("\n  byte size: ");
    out.append(render_optional_count(raw.byte_size).as_str());
    out.append("\n  line count: ");
    out.append(render_optional_count(raw.line_count).as_str());
    out.append("\n  commits per file: ");
    out.append(render_optional_count(raw.commits_per_file).as_str());
    out.append("\n  total churn lines: ");
    out.append(render_optional_count(raw.total_churn_lines).as_str());
    out.append("\n  recent churn lines (");
    numbers::push_signed_decimal(out, recent_window_days);
    out.append(" days): ");
    out.append(render_optional_count(raw.recent_churn_lines).as_str());
    out.append("\n  author count: ");
    out.append(render_optional_count(raw.author_count).as_str());
    out.append("\n  dominant owner share: ");
    out.append(render_optional_share(&raw.dominant_owner_share).as_str());
    out.append("\n  co-changed file count: ");
    out.append(render_optional_count(raw.co_changed_file_count).as_str());
    out.append("\n\nnormalized metrics");
    out.append("\n  size: ");
    out.append(render_optional_score(&normalized.size).as_str());
    out.append("\n  churn: ");
    out.append(render_optional_score(&normalized.churn).as_str());
    out.append("\n  recent_churn: ");
    out.append(render_optional_score(&normalized.recent_churn).as_str());
    out.append("\n  ownership: ");
    out.append(render_optional_score(&normalized.ownership).as_str());
    out.append("\n  coupling: ");
    out.append(render_optional_score(&normalized.coupling).as_str());
    out.append("\n\nweighted contributions");
    push_term_lines(out, &score.weighted_terms);
    out.append("\n\nlimitations");
    if score.limitations.len() == 0 {
        out.append("\n  - Uses local Git history only; advisory score.");
    } else {
        push_limitation_lines(out, &score.limitations);
    }
    push_notes(out, recent_window_days);
    text
}

/// The first score of a path.
pub open spec fn score_of(ranked: Seq<RankedHotspotScoreView>, path: Seq<char>) -> Option<
    HotspotScoreView,
>
    decreases ranked.len(),
{
    if ranked.len() == 0 {
        None
    } else if ranked[0].score.path == path {
        Some(ranked[0].score)
    } else {
        score_of(ranked.skip(1), path)
    }
}

/// Explains the score of a path, where it has one.
pub fn explain_path(ranked: &Vec<RankedHotspotScore>, path: &str, recent_window_days: i64) -> (out:
    Option<String>)
    ensures
        out.deep_view() == (match score_of(ranked.deep_view(), path@) {
            Some(score) => Some(explanation(score, recent_window_days)),
            None => None,
        }),
{
    let ghost all = ranked.deep_view();
    let mut i: usize = 0;
    assert(all.skip(0) =~= all);
    while i < ranked.len()
        invariant
            i <= ranked.len(),
            all == ranked.deep_view(),
            score_of(all, path@) == score_of(all.skip(i as int), path@),
        decreases ranked.len() - i,
    {
        assert(all.skip(i as int)[0] == ranked@[i as int].deep_view());
        assert(all.skip(i as int).skip(1) =~= all.skip(i + 1));
        if text::same(ranked[i].score.path.as_str(), path) {
            return Some(render_explain(&ranked[i].score, recent_window_days));
        }
        i = i + 1;
    }
    None
}

} // verus!
