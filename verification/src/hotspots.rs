//! The riskiest files, as the index ranks them.

pub mod laws;

use vstd::prelude::*;

use crate::measure;
use crate::measure::{Real, RealView};
use crate::numbers;
use crate::order;
use crate::order::{KeyPart, Ordered};
use crate::text;

verus! {

pub const DEFAULT_HOTSPOT_LIMIT: usize = 5;

/// The formula by which files are scored.
pub const FORMULA_ID: &'static str = "hotpath.score.go.v1";

/// So many drivers are named of each file.
pub const DRIVER_LIMIT: usize = 4;

pub const HOTSPOTS_JSON_SCHEMA_VERSION: u64 = 1;

/// The bits of 0.60: from there on a term is strong.
pub const STRONG_TERM_BITS: u64 = 0x3FE3_3333_3333_3333;

/// The riskiest files.
#[derive(Debug, Clone, PartialEq, Eq)]
pub struct HotspotsReport {
    pub include_tests: bool,
    pub rows: Vec<HotspotRow>,
}

/// A risky file.
#[derive(Debug, Clone, PartialEq, Eq)]
pub struct HotspotRow {
    pub rank: u64,
    pub score: Real,
    pub relative_path: String,
    pub is_test: bool,
    pub drivers: Vec<String>,
    pub tags: Vec<String>,
    pub confidence: String,
}

/// The score of a file in the index.
#[derive(Debug, Clone, PartialEq, Eq)]
pub struct HotspotScoreRow {
    pub score: Real,
    pub relative_path: String,
    pub is_generated: bool,
    pub is_vendor: bool,
    pub is_test: bool,
}

/// A term of a score.
#[derive(Debug, Clone, PartialEq, Eq)]
pub struct HotspotTerm {
    pub name: String,
    pub normalized_value: Option<Real>,
}

/// A term of a score in the index.
#[derive(Debug, Clone, PartialEq, Eq)]
pub struct HotspotTermRow {
    pub relative_path: String,
    pub term: HotspotTerm,
}

/// Something in the index that speaks for a score.
#[derive(Debug, Clone, PartialEq, Eq)]
pub struct HotspotFactRow {
    pub relative_path: String,
    pub message: String,
}

/// What the index holds of the formula by which files are scored.
#[derive(Debug, Clone, PartialEq, Eq)]
pub struct HotspotsIndex {
    /// Whether the index says anything of the last scan.
    pub has_state: bool,
    /// What it says of the last scan's completion.
    pub completed: Option<String>,
    pub confidence: Option<String>,
    pub scores: Vec<HotspotScoreRow>,
    /// In the order of their paths and numbers.
    pub facts: Vec<HotspotFactRow>,
    /// In the order of their paths and names.
    pub terms: Vec<HotspotTermRow>,
}

/// Why there are no hotspots; what the database says of it is kept in words.
#[derive(Debug, Clone, PartialEq, Eq)]
pub enum HotspotsError {
    NoIndex,
    IncompleteIndex,
    OpenDatabase { path: String, message: String },
    QueryDatabase(String),
}

/// What a [`HotspotsReport`] stands for.
#[verifier::ext_equal]
pub struct HotspotsReportView {
    pub include_tests: bool,
    pub rows: Seq<HotspotRowView>,
}

impl DeepView for HotspotsReport {
    type V = HotspotsReportView;

    open spec fn deep_view(&self) -> HotspotsReportView {
        HotspotsReportView {
            include_tests: self.include_tests,
            rows: self.rows.deep_view(),
        }
    }
}

/// What a [`HotspotRow`] stands for.
#[verifier::ext_equal]
pub struct HotspotRowView {
    pub rank: u64,
    pub score: RealView,
    pub relative_path: Seq<char>,
    pub is_test: bool,
    pub drivers: Seq<Seq<char>>,
    pub tags: Seq<Seq<char>>,
    pub confidence: Seq<char>,
}

impl DeepView for HotspotRow {
    type V = HotspotRowView;

    open spec fn deep_view(&self) -> HotspotRowView {
        HotspotRowView {
            rank: self.rank,
            score: self.score.deep_view(),
            relative_path: self.relative_path@,
            is_test: self.is_test,
            drivers: self.drivers.deep_view(),
            tags: self.tags.deep_view(),
            confidence: self.confidence@,
        }
    }
}

/// What a [`HotspotScoreRow`] stands for.
#[verifier::ext_equal]
pub struct HotspotScoreRowView {
    pub score: RealView,
    pub relative_path: Seq<char>,
    pub is_generated: bool,
    pub is_vendor: bool,
    pub is_test: bool,
}

impl DeepView for HotspotScoreRow {
    type V = HotspotScoreRowView;

    open spec fn deep_view(&self) -> HotspotScoreRowView {
        HotspotScoreRowView {
            score: self.score.deep_view(),
            relative_path: self.relative_path@,
            is_generated: self.is_generated,
            is_vendor: self.is_vendor,
            is_test: self.is_test,
        }
    }
}

/// What a [`HotspotTerm`] stands for.
#[verifier::ext_equal]
pub struct HotspotTermView {
    pub name: Seq<char>,
    pub normalized_value: Option<RealView>,
}

impl DeepView for HotspotTerm {
    type V = HotspotTermView;

    open spec fn deep_view(&self) -> HotspotTermView {
        HotspotTermView {
            name: self.name@,
            normalized_value: self.normalized_value.deep_view(),
        }
    }
}

/// What a [`HotspotTermRow`] stands for.
#[verifier::ext_equal]
pub struct HotspotTermRowView {
    pub relative_path: Seq<char>,
    pub term: HotspotTermView,
}

impl DeepView for HotspotTermRow {
    type V = HotspotTermRowView;

    open spec fn deep_view(&self) -> HotspotTermRowView {
        HotspotTermRowView {
            relative_path: self.relative_path@,
            term: self.term.deep_view(),
        }
    }
}

/// What a [`HotspotFactRow`] stands for.
#[verifier::ext_equal]
pub struct HotspotFactRowView {
    pub relative_path: Seq<char>,
    pub message: Seq<char>,
}

impl DeepView for HotspotFactRow {
    type V = HotspotFactRowView;

    open spec fn deep_view(&self) -> HotspotFactRowView {
        HotspotFactRowView {
            relative_path: self.relative_path@,
            message: self.message@,
        }
    }
}

/// What a [`HotspotsError`] stands for.
#[verifier::ext_equal]
pub enum HotspotsErrorView {
    NoIndex,
    IncompleteIndex,
    OpenDatabase { path: Seq<char>, message: Seq<char> },
    QueryDatabase(Seq<char>),
}

impl DeepView for HotspotsError {
    type V = HotspotsErrorView;

    open spec fn deep_view(&self) -> HotspotsErrorView {
        match self {
            HotspotsError::NoIndex => HotspotsErrorView::NoIndex,
            HotspotsError::IncompleteIndex => HotspotsErrorView::IncompleteIndex,
            HotspotsError::OpenDatabase { path, message } => HotspotsErrorView::OpenDatabase { path: path@, message: message@ },
            HotspotsError::QueryDatabase(inner) => HotspotsErrorView::QueryDatabase(inner@),
        }
    }
}

impl HotspotsErrorView {
    /// The error in words.
    pub open spec fn words(self) -> Seq<char> {
        match self {
            HotspotsErrorView::NoIndex => "No Hotpath index found. Run hotpath scan first."@,
            HotspotsErrorView::IncompleteIndex => "Hotpath index is incomplete. Run hotpath scan first."@,
            HotspotsErrorView::OpenDatabase { path, message } => "failed to open Hotpath index '"@
                + path + "': "@ + message,
            HotspotsErrorView::QueryDatabase(message) => "failed to read Hotpath hotspots: "@
                + message,
        }
    }
}

impl HotspotsError {
    /// The error in words.
    pub fn message(&self) -> (out: String)
        ensures
            out@ == self.deep_view().words(),
    {
        match self {
            HotspotsError::NoIndex => "No Hotpath index found. Run hotpath scan first.".to_string(),
            HotspotsError::IncompleteIndex => "Hotpath index is incomplete. Run hotpath scan first.".to_string(),
            HotspotsError::OpenDatabase { path, message } => {
                let mut out = "failed to open Hotpath index '".to_string();
                out.append(path.as_str());
                out.append("': ");
                out.append(message.as_str());
                out
            },
            HotspotsError::QueryDatabase(message) => {
                let mut out = "failed to read Hotpath hotspots: ".to_string();
                out.append(message.as_str());
                out
            },
        }
    }
}

/// What a [`HotspotsIndex`] stands for.
#[verifier::ext_equal]
pub struct HotspotsIndexView {
    pub has_state: bool,
    pub completed: Option<Seq<char>>,
    pub confidence: Option<Seq<char>>,
    pub scores: Seq<HotspotScoreRowView>,
    pub facts: Seq<HotspotFactRowView>,
    pub terms: Seq<HotspotTermRowView>,
}

impl DeepView for HotspotsIndex {
    type V = HotspotsIndexView;

    open spec fn deep_view(&self) -> HotspotsIndexView {
        HotspotsIndexView {
            has_state: self.has_state,
            completed: self.completed.deep_view(),
            confidence: self.confidence.deep_view(),
            scores: self.scores.deep_view(),
            facts: self.facts.deep_view(),
            terms: self.terms.deep_view(),
        }
    }
}

impl Ordered for HotspotScoreRow {
    /// The highest score first, then by path.
    open spec fn key(v: HotspotScoreRowView) -> Seq<KeyPart> {
        seq![
            KeyPart::Number(-(measure::place(v.score.bits) as int)),
            KeyPart::Text(v.relative_path),
        ]
    }

    fn comes_before(&self, other: &Self) -> (r: bool) {
        proof {
            reveal_with_fuel(order::key_lt_from, 3);
        }
        if measure::rank(other.score.bits) < measure::rank(self.score.bits) {
            return true;
        }
        if measure::rank(self.score.bits) < measure::rank(other.score.bits) {
            return false;
        }
        text::precedes(self.relative_path.as_str(), other.relative_path.as_str())
    }
}

/// The scores of the files that are asked for.
pub open spec fn asked_scores(rows: Seq<HotspotScoreRowView>, include_tests: bool) -> Seq<HotspotScoreRowView>
    decreases rows.len(),
{
    if rows.len() == 0 {
        Seq::empty()
    } else if include_tests || !rows.last().is_test {
        asked_scores(rows.drop_last(), include_tests).push(rows.last())
    } else {
        asked_scores(rows.drop_last(), include_tests)
    }
}

/// The scores of the files that are asked for, the highest first, up to a limit.
pub open spec fn ranked_scores(
    rows: Seq<HotspotScoreRowView>,
    include_tests: bool,
    limit: Option<usize>,
) -> Seq<HotspotScoreRowView> {
    let ranked = order::sorted_by(
        asked_scores(rows, include_tests),
        order::by_key::<HotspotScoreRow>(),
    );
    match limit {
        Some(limit) => if ranked.len() > limit {
            ranked.take(limit as int)
        } else {
            ranked
        },
        None => ranked,
    }
}

/// The scores of the files that are asked for, the highest first, up to a limit.
pub fn load_score_rows(rows: Vec<HotspotScoreRow>, include_tests: bool, limit: Option<usize>) -> (
    out: Vec<HotspotScoreRow>)
    ensures
        out.deep_view() == ranked_scores(rows.deep_view(), include_tests, limit),
{
    let ghost all = rows.deep_view();
    let mut asked: Vec<HotspotScoreRow> = Vec::new();
    let ghost mut i: int = 0;
    assert(asked.deep_view() =~= asked_scores(all.take(0), include_tests));
    for row in it: rows
        invariant
            it.seq() == rows@,
            all == rows.deep_view(),
            i == it.index(),
            asked.deep_view() == asked_scores(all.take(i), include_tests),
    {
        let ghost value = row.deep_view();
        assert(all.take(i + 1).drop_last() =~= all.take(i));
        assert(all.take(i + 1).last() == value);
        if include_tests || !row.is_test {
            let ghost before = asked.deep_view();
            asked.push(row);
            assert(asked.deep_view() =~= before.push(value));
        }
        proof {
            i = i + 1;
        }
    }
    assert(all.take(i) =~= all);
    let mut out = order::sort(asked);
    if let Some(limit) = limit {
        if out.len() > limit {
            let ghost before = out.deep_view();
            out.truncate(limit);
            assert(out.deep_view() =~= before.take(limit as int));
        }
    }
    out
}

/// No file of a list of hotspots has a lower score than one that follows it.
pub proof fn higher_scores_come_first(
    rows: Seq<HotspotScoreRowView>,
    include_tests: bool,
    limit: Option<usize>,
    i: int,
    j: int,
)
    requires
        0 <= i < j < ranked_scores(rows, include_tests, limit).len(),
    ensures
        measure::place(ranked_scores(rows, include_tests, limit)[i].score.bits) >= measure::place(
            ranked_scores(rows, include_tests, limit)[j].score.bits,
        ),
{
    let lt = order::by_key::<HotspotScoreRow>();
    let asked = asked_scores(rows, include_tests);
    order::by_key_is_strict_weak::<HotspotScoreRow>();
    order::sorted_by_is_sorted(asked, lt);
    reveal_with_fuel(order::key_lt_from, 3);
    let ranked = order::sorted_by(asked, lt);
    let a = ranked[i];
    let b = ranked[j];
    assert(a == ranked_scores(rows, include_tests, limit)[i]);
    assert(b == ranked_scores(rows, include_tests, limit)[j]);
    assert(!lt(b, a));
    assert(HotspotScoreRow::key(a)[0] == KeyPart::Number(-(measure::place(a.score.bits) as int)));
    assert(HotspotScoreRow::key(b)[0] == KeyPart::Number(-(measure::place(b.score.bits) as int)));
}

/// Whether a scan has been completed, by what the index says of it.
pub fn index_is_complete(has_state: bool, completed: Option<&str>) -> (r: bool)
    ensures
        r == (has_state && completed.deep_view() == Some("1"@)),
{
    has_state && match completed {
        Some(value) => text::same(value, "1"),
        None => false,
    }
}

/// Whether a term is strong: its value is not below 0.60; a missing value counts as zero.
pub open spec fn is_strong_term(term: HotspotTermView) -> bool {
    match term.normalized_value {
        Some(value) => !measure::is_less(value.bits, STRONG_TERM_BITS),
        None => false,
    }
}

/// Whether one of the terms has this name and is strong.
pub open spec fn is_strong(terms: Seq<HotspotTermView>, name: Seq<char>) -> bool {
    exists|i: int|
        0 <= i < terms.len() && (#[trigger] terms[i]).name == name && is_strong_term(terms[i])
}

fn has_strong_term(terms: &Vec<HotspotTerm>, name: &str) -> (r: bool)
    ensures
        r == is_strong(terms.deep_view(), name@),
{
    let ghost all = terms.deep_view();
    let mut i: usize = 0;
    while i < terms.len()
        invariant
            i <= terms.len(),
            all == terms.deep_view(),
            forall|k: int|
                0 <= k < i ==> !((#[trigger] all[k]).name == name@ && is_strong_term(all[k])),
        decreases terms.len() - i,
    {
        let term = &terms[i];
        assert(all[i as int] == term.deep_view());
        let strong = match &term.normalized_value {
            Some(value) => !measure::less(value.bits, STRONG_TERM_BITS),
            None => false,
        };
        if strong && text::same(term.name.as_str(), name) {
            return true;
        }
        i = i + 1;
    }
    false
}

/// A tag, where it applies.
pub open spec fn tag_if(applies: bool, tag: Seq<char>) -> Seq<Seq<char>> {
    if applies {
        seq![tag]
    } else {
        Seq::empty()
    }
}

fn push_tag_if(tags: &mut Vec<String>, applies: bool, tag: &str)
    ensures
        final(tags).deep_view() == old(tags).deep_view() + tag_if(applies, tag@),
{
    let ghost before = tags.deep_view();
    if applies {
        tags.push(tag.to_string());
    }
    assert(tags.deep_view() =~= before + tag_if(applies, tag@));
}

/// What stands out about a file, the most important first.
pub open spec fn tags_of(row: HotspotScoreRowView, terms: Seq<HotspotTermView>) -> Seq<Seq<char>> {
    tag_if(is_strong(terms, "churn"@), "high churn"@)
        + tag_if(is_strong(terms, "cochange_pressure"@) || is_strong(terms, "source_coupling_pressure"@), "coupling pressure"@)
        + tag_if(is_strong(terms, "ownership_risk"@), "ownership risk"@)
        + tag_if(is_strong(terms, "size"@), "large file"@)
        + tag_if(is_strong(terms, "complexity_pressure"@), "complexity pressure"@)
        + tag_if(is_strong(terms, "recent_churn"@), "recent churn"@)
        + tag_if(row.is_test, "test file"@)
        + tag_if(row.is_generated, "generated"@)
        + tag_if(row.is_vendor, "vendor"@)
}

/// What stands out about a file, the most important first.
pub fn tags_for_row(row: &HotspotScoreRow, terms: &Vec<HotspotTerm>) -> (tags: Vec<String>)
    ensures
        tags.deep_view() == tags_of(row.deep_view(), terms.deep_view()),
{
    let mut tags: Vec<String> = Vec::new();
    push_tag_if(&mut tags, has_strong_term(terms, "churn"), "high churn");
    push_tag_if(&mut tags, has_strong_term(terms, "cochange_pressure") || has_strong_term(terms, "source_coupling_pressure"), "coupling pressure");
    push_tag_if(&mut tags, has_strong_term(terms, "ownership_risk"), "ownership risk");
    push_tag_if(&mut tags, has_strong_term(terms, "size"), "large file");
    push_tag_if(&mut tags, has_strong_term(terms, "complexity_pressure"), "complexity pressure");
    push_tag_if(&mut tags, has_strong_term(terms, "recent_churn"), "recent churn");
    push_tag_if(&mut tags, row.is_test, "test file");
    push_tag_if(&mut tags, row.is_generated, "generated");
    push_tag_if(&mut tags, row.is_vendor, "vendor");
    assert(tags.deep_view() =~= tags_of(row.deep_view(), terms.deep_view()));
    tags
}

/// The terms of a file.
pub open spec fn terms_of(rows: Seq<HotspotTermRowView>, path: Seq<char>) -> Seq<HotspotTermView>
    decreases rows.len(),
{
    if rows.len() == 0 {
        Seq::empty()
    } else {
        let before = terms_of(rows.drop_last(), path);
        if rows.last().relative_path == path {
            before.push(rows.last().term)
        } else {
            before
        }
    }
}

fn select_terms(rows: &Vec<HotspotTermRow>, path: &str) -> (out: Vec<HotspotTerm>)
    ensures
        out.deep_view() == terms_of(rows.deep_view(), path@),
{
    let ghost all = rows.deep_view();
    let mut out: Vec<HotspotTerm> = Vec::new();
    let mut i: usize = 0;
    assert(out.deep_view() =~= terms_of(all.take(0), path@));
    while i < rows.len()
        invariant
            i <= rows.len(),
            all == rows.deep_view(),
            out.deep_view() == terms_of(all.take(i as int), path@),
        decreases rows.len() - i,
    {
        let row = &rows[i];
        assert(all.take(i + 1).drop_last() =~= all.take(i as int));
        assert(all.take(i + 1).last() == row.deep_view());
        if text::same(row.relative_path.as_str(), path) {
            let ghost before = out.deep_view();
            let value = match &row.term.normalized_value {
                Some(value) => Some(measure::copy(value)),
                None => None,
            };
            let copy = HotspotTerm { name: row.term.name.clone(), normalized_value: value };
            assert(copy.deep_view() == row.deep_view().term);
            out.push(copy);
            assert(out.deep_view() =~= before.push(copy.deep_view()));
        }
        i = i + 1;
    }
    assert(all.take(i as int) =~= all);
    out
}

/// What drives the score of a file: the first of what speaks for it.
pub open spec fn drivers_of(rows: Seq<HotspotFactRowView>, path: Seq<char>) -> Seq<Seq<char>>
    decreases rows.len(),
{
    if rows.len() == 0 {
        Seq::empty()
    } else {
        let before = drivers_of(rows.drop_last(), path);
        if rows.last().relative_path == path && before.len() < DRIVER_LIMIT {
            before.push(rows.last().message)
        } else {
            before
        }
    }
}

fn select_drivers(rows: &Vec<HotspotFactRow>, path: &str) -> (out: Vec<String>)
    ensures
        out.deep_view() == drivers_of(rows.deep_view(), path@),
{
    let ghost all = rows.deep_view();
    let mut out: Vec<String> = Vec::new();
    let mut i: usize = 0;
    assert(out.deep_view() =~= drivers_of(all.take(0), path@));
    while i < rows.len()
        invariant
            i <= rows.len(),
            all == rows.deep_view(),
            out.deep_view() == drivers_of(all.take(i as int), path@),
        decreases rows.len() - i,
    {
        let row = &rows[i];
        assert(all.take(i + 1).drop_last() =~= all.take(i as int));
        assert(all.take(i + 1).last() == row.deep_view());
        if text::same(row.relative_path.as_str(), path) && out.len() < DRIVER_LIMIT {
            let ghost before = out.deep_view();
            out.push(row.message.clone());
            assert(out.deep_view() =~= before.push(row.message@));
        }
        i = i + 1;
    }
    assert(all.take(i as int) =~= all);
    out
}

/// The row of the `i`-th score.
pub open spec fn row_of(
    scores: Seq<HotspotScoreRowView>,
    i: int,
    facts: Seq<HotspotFactRowView>,
    terms: Seq<HotspotTermRowView>,
    confidence: Option<Seq<char>>,
) -> HotspotRowView {
    let score = scores[i];
    HotspotRowView {
        rank: (i + 1) as u64,
        score: score.score,
        relative_path: score.relative_path,
        is_test: score.is_test,
        drivers: drivers_of(facts, score.relative_path),
        tags: tags_of(score, terms_of(terms, score.relative_path)),
        confidence: match confidence {
            Some(confidence) => confidence,
            None => "none"@,
        },
    }
}

/// The riskiest files, by the rows of the index: one for each score, in their order.
pub fn hotspots_from_rows(
    include_tests: bool,
    scores: &Vec<HotspotScoreRow>,
    facts: &Vec<HotspotFactRow>,
    terms: &Vec<HotspotTermRow>,
    confidence: Option<String>,
) -> (out: HotspotsReport)
    ensures
        out.include_tests == include_tests,
        out.deep_view().rows == Seq::new(
            scores.deep_view().len(),
            |i: int|
                row_of(
                    scores.deep_view(),
                    i,
                    facts.deep_view(),
                    terms.deep_view(),
                    confidence.deep_view(),
                ),
        ),
{
    let ghost wanted = Seq::new(
        scores.deep_view().len(),
        |i: int|
            row_of(
                scores.deep_view(),
                i,
                facts.deep_view(),
                terms.deep_view(),
                confidence.deep_view(),
            ),
    );
    let known = match &confidence {
        Some(confidence) => confidence.clone(),
        None => "none".to_string(),
    };
    let mut rows: Vec<HotspotRow> = Vec::new();
    let mut i: usize = 0;
    assert(rows.deep_view() =~= wanted.take(0));
    while i < scores.len()
        invariant
            i <= scores.len(),
            wanted == Seq::new(
                scores.deep_view().len(),
                |i: int|
                    row_of(
                        scores.deep_view(),
                        i,
                        facts.deep_view(),
                        terms.deep_view(),
                        confidence.deep_view(),
                    ),
            ),
            known@ == (match confidence.deep_view() {
                Some(confidence) => confidence,
                None => "none"@,
            }),
            rows.deep_view() == wanted.take(i as int),
        decreases scores.len() - i,
    {
        let score = &scores[i];
        let ghost before = rows.deep_view();
        assert(scores.deep_view()[i as int] == score.deep_view());
        let own_terms = select_terms(terms, score.relative_path.as_str());
        let row = HotspotRow {
            rank: i as u64 + 1,
            score: measure::copy(&score.score),
            relative_path: score.relative_path.clone(),
            is_test: score.is_test,
            drivers: select_drivers(facts, score.relative_path.as_str()),
            tags: tags_for_row(score, &own_terms),
            confidence: known.clone(),
        };
        assert(row.deep_view() == wanted[i as int]);
        rows.push(row);
        assert(rows.deep_view() =~= before.push(row.deep_view()));
        i = i + 1;
        assert(rows.deep_view() =~= wanted.take(i as int));
    }
    assert(wanted.take(i as int) =~= wanted);
    HotspotsReport { include_tests, rows }
}

/// The riskiest files, by what the index holds.
pub open spec fn report_of(index: HotspotsIndexView, include_tests: bool, limit: Option<usize>) -> Result<
    HotspotsReportView,
    HotspotsErrorView,
> {
    if !(index.has_state && index.completed == Some("1"@)) {
        Err(HotspotsErrorView::IncompleteIndex)
    } else {
        let scores = ranked_scores(index.scores, include_tests, limit);
        Ok(
            HotspotsReportView {
                include_tests,
                rows: Seq::new(
                    scores.len(),
                    |i: int| row_of(scores, i, index.facts, index.terms, index.confidence),
                ),
            },
        )
    }
}

/// The riskiest files, by what the index holds.
pub fn load_hotspots_report(index: HotspotsIndex, include_tests: bool, limit: Option<usize>) -> (r:
    Result<HotspotsReport, HotspotsError>)
    ensures
        match r {
            Ok(report) => report_of(index.deep_view(), include_tests, limit) == Ok::<
                HotspotsReportView,
                HotspotsErrorView,
            >(report.deep_view()),
            Err(fault) => report_of(index.deep_view(), include_tests, limit) == Err::<
                HotspotsReportView,
                HotspotsErrorView,
            >(fault.deep_view()),
        },
{
    let completed: Option<&str> = match &index.completed {
        Some(value) => Some(value.as_str()),
        None => None,
    };
    if !index_is_complete(index.has_state, completed) {
        return Err(HotspotsError::IncompleteIndex);
    }
    let scores = load_score_rows(index.scores, include_tests, limit);
    let report = hotspots_from_rows(
        include_tests,
        &scores,
        &index.facts,
        &index.terms,
        index.confidence,
    );
    assert(Ok::<HotspotsReportView, HotspotsErrorView>(report.deep_view()) == report_of(
        index.deep_view(),
        include_tests,
        limit,
    ));
    Ok(report)
}

/// Texts as indented lines.
pub open spec fn indented_lines(out: Seq<char>, texts: Seq<Seq<char>>) -> Seq<char>
    decreases texts.len(),
{
    if texts.len() == 0 {
        out
    } else {
        indented_lines(out, texts.drop_last()) + "\n    "@ + texts.last()
    }
}

fn push_indented_lines(out: &mut String, texts: &Vec<String>)
    ensures
        final(out)@ == indented_lines(old(out)@, texts.deep_view()),
{
    let ghost start = out@;
    let ghost all = texts.deep_view();
    let mut i: usize = 0;
    while i < texts.len()
        invariant
            i <= texts.len(),
            all == texts.deep_view(),
            out@ == indented_lines(start, all.take(i as int)),
        decreases texts.len() - i,
    {
        assert(all.take(i + 1).drop_last() =~= all.take(i as int));
        assert(all.take(i + 1).last() == texts@[i as int]@);
        out.append("\n    ");
        out.append(texts[i].as_str());
        i = i + 1;
    }
    assert(all.take(i as int) =~= all);
}

/// A row of the table.
pub open spec fn row_text(out: Seq<char>, row: HotspotRowView, verbose: bool) -> Seq<char> {
    let start = out + "\n"@ + "\n"@ + text::aligned(numbers::decimal(row.rank as nat), 2) + "  "@;
    let named = if verbose {
        start + row.score.text + "  "@ + row.relative_path + "  ["@ + row.confidence + "]"@
    } else {
        start + row.relative_path
    };
    let tagged = if row.tags.len() == 0 {
        named
    } else {
        named + "\n    "@ + text::joined(row.tags, " · "@)
    };
    if verbose {
        indented_lines(tagged, row.drivers)
    } else {
        tagged
    }
}

fn push_row(out: &mut String, row: &HotspotRow, verbose: bool)
    ensures
        final(out)@ == row_text(old(out)@, row.deep_view(), verbose),
{
    out.append("\n");
    out.append("\n");
    let rank = numbers::decimal_text(row.rank);
    text::push_aligned(out, rank.as_str(), 2);
    out.append("  ");
    if verbose {
        out.append(row.score.text.as_str());
        out.append("  ");
        out.append(row.relative_path.as_str());
        out.append("  [");
        out.append(row.confidence.as_str());
        out.append("]");
    } else {
        out.append(row.relative_path.as_str());
    }
    if row.tags.len() > 0 {
        out.append("\n    ");
        let tags = text::join(row.tags.as_slice(), " · ");
        out.append(tags.as_str());
    }
    if verbose {
        push_indented_lines(out, &row.drivers);
    }
}

/// The rows of the table.
pub open spec fn rows_text(out: Seq<char>, rows: Seq<HotspotRowView>, verbose: bool) -> Seq<char>
    decreases rows.len(),
{
    if rows.len() == 0 {
        out
    } else {
        row_text(rows_text(out, rows.drop_last(), verbose), rows.last(), verbose)
    }
}

/// What the table is headed by.
pub open spec fn title(include_tests: bool) -> Seq<char> {
    if include_tests {
        "Go hotspots (production + tests)"@
    } else {
        "Production Go hotspots"@
    }
}

/// The table of the riskiest files.
pub open spec fn table_text(report: HotspotsReportView, verbose: bool) -> Seq<char> {
    if report.rows.len() == 0 {
        if report.include_tests {
            "No scored Go file hotspots found."@
        } else {
            "No scored production Go file hotspots found."@
        }
    } else if verbose {
        rows_text(title(report.include_tests), report.rows, true)
    } else {
        rows_text(
            title(report.include_tests) + "  [git confidence: "@ + report.rows[0].confidence
                + "]"@,
            report.rows,
            false,
        )
    }
}

/// Renders the table of the riskiest files.
pub fn render_hotspots_table(report: &HotspotsReport, verbose: bool) -> (output: String)
    ensures
        output@ == table_text(report.deep_view(), verbose),
{
    let ghost all = report.rows.deep_view();
    if report.rows.len() == 0 {
        return if report.include_tests {
            "No scored Go file hotspots found.".to_string()
        } else {
            "No scored production Go file hotspots found.".to_string()
        };
    }
    let mut text = if report.include_tests {
        "Go hotspots (production + tests)".to_string()
    } else {
        "Production Go hotspots".to_string()
    };
    let out = &mut text;
    if !verbose {
        assert(all[0] == report.rows@[0].deep_view());
        out.append("  [git confidence: ");
        out.append(report.rows[0].confidence.as_str());
        out.append("]");
    }
    let ghost start = out@;
    let mut i: usize = 0;
    while i < report.rows.len()
        invariant
            i <= report.rows.len(),
            all == report.rows.deep_view(),
            out@ == rows_text(start, all.take(i as int), verbose),
        decreases report.rows.len() - i,
    {
        assert(all.take(i + 1).drop_last() =~= all.take(i as int));
        assert(all.take(i + 1).last() == report.rows@[i as int].deep_view());
        push_row(out, &report.rows[i], verbose);
        i = i + 1;
    }
    assert(all.take(i as int) =~= all);
    text
}

} // verus!
