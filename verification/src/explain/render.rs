//! The report on a file as text.

use vstd::prelude::*;

use crate::explain::{
    CochangePartner, CochangePartnerView, ExplainFact, ExplainFactView, ExplainFile,
    ExplainFileView, ExplainLimitation, ExplainLimitationView, ExplainOwner, ExplainOwnerView,
    ExplainReport, ExplainReportView, ExplainScore, ExplainScoreView, ExplainTerm, ExplainTermView,
    RawMetrics, RawMetricsView, SourceCoupling, SourceCouplingView, SourceEdge, SourceEdgeView,
    SourceReference, SourceReferenceView,
};
use crate::numbers;
use crate::measure::{Real, RealView};
use crate::table;
use crate::table::TextMap;

verus! {

/// A text, or `none`.
pub open spec fn shown(value: Option<Seq<char>>) -> Seq<char> {
    match value {
        Some(value) => value,
        None => "none"@,
    }
}

fn shown_text(value: &Option<String>) -> (out: String)
    ensures
        out@ == shown(value.deep_view()),
{
    match value {
        Some(value) => value.clone(),
        None => "none".to_string(),
    }
}

/// A number in digits, or `none`.
pub open spec fn shown_number(value: Option<u64>) -> Seq<char> {
    match value {
        Some(value) => numbers::decimal(value as nat),
        None => "none"@,
    }
}

fn number_text(value: Option<u64>) -> (out: String)
    ensures
        out@ == shown_number(value),
{
    match value {
        Some(value) => numbers::decimal_text(value),
        None => "none".to_string(),
    }
}

/// A real number as it is printed, or `none`.
pub open spec fn shown_real(value: Option<RealView>) -> Seq<char> {
    match value {
        Some(value) => value.text,
        None => "none"@,
    }
}

fn real_text(value: &Option<Real>) -> (out: String)
    ensures
        out@ == shown_real(value.deep_view()),
{
    match value {
        Some(value) => value.text.clone(),
        None => "none".to_string(),
    }
}

/// A flag in words.
pub open spec fn shown_flag(value: bool) -> Seq<char> {
    if value {
        "true"@
    } else {
        "false"@
    }
}

fn flag_text(value: bool) -> (out: &'static str)
    ensures
        out@ == shown_flag(value),
{
    if value {
        "true"
    } else {
        "false"
    }
}

/// Why there is no score, as lines.
pub open spec fn reason_lines(out: Seq<char>, items: Seq<ExplainLimitationView>) -> Seq<char>
    decreases items.len(),
{
    if items.len() == 0 {
        out
    } else {
        let item = items.last();
        reason_lines(out, items.drop_last())
            + "\n  reason "@
            + item.code
            + ": "@
            + item.message
    }
}

fn push_reason_lines(out: &mut String, items: &Vec<ExplainLimitation>)
    ensures
        final(out)@ == reason_lines(old(out)@, items.deep_view()),
{
    let ghost start = out@;
    let ghost all = items.deep_view();
    let mut i: usize = 0;
    while i < items.len()
        invariant
            i <= items.len(),
            all == items.deep_view(),
            out@ == reason_lines(start, all.take(i as int)),
        decreases items.len() - i,
    {
        let item = &items[i];
        assert(all.take(i + 1).drop_last() =~= all.take(i as int));
        assert(all.take(i + 1).last() == item.deep_view());
        out.append("\n  reason ");
        out.append(item.code.as_str());
        out.append(": ");
        out.append(item.message.as_str());
        i = i + 1;
    }
    assert(all.take(i as int) =~= all);
}

/// Terms as lines.
pub open spec fn term_lines(out: Seq<char>, items: Seq<ExplainTermView>) -> Seq<char>
    decreases items.len(),
{
    if items.len() == 0 {
        out
    } else {
        let item = items.last();
        term_lines(out, items.drop_last())
            + "\n  "@
            + item.name
            + " raw "@
            + shown_real(item.raw_value)
            + " normalized "@
            + shown_real(item.normalized_value)
            + " weight "@
            + item.weight.text
            + " contribution "@
            + item.contribution.text
    }
}

fn push_term_lines(out: &mut String, items: &Vec<ExplainTerm>)
    ensures
        final(out)@ == term_lines(old(out)@, items.deep_view()),
{
    let ghost start = out@;
    let ghost all = items.deep_view();
    let mut i: usize = 0;
    while i < items.len()
        invariant
            i <= items.len(),
            all == items.deep_view(),
            out@ == term_lines(start, all.take(i as int)),
        decreases items.len() - i,
    {
        let item = &items[i];
        assert(all.take(i + 1).drop_last() =~= all.take(i as int));
        assert(all.take(i + 1).last() == item.deep_view());
        out.append("\n  ");
        out.append(item.name.as_str());
        out.append(" raw ");
        out.append(real_text(&item.raw_value).as_str());
        out.append(" normalized ");
        out.append(real_text(&item.normalized_value).as_str());
        out.append(" weight ");
        out.append(item.weight.text.as_str());
        out.append(" contribution ");
        out.append(item.contribution.text.as_str());
        i = i + 1;
    }
    assert(all.take(i as int) =~= all);
}

/// Facts as lines.
pub open spec fn fact_lines(out: Seq<char>, items: Seq<ExplainFactView>) -> Seq<char>
    decreases items.len(),
{
    if items.len() == 0 {
        out
    } else {
        let item = items.last();
        fact_lines(out, items.drop_last())
            + "\n  "@
            + item.kind
            + ": "@
            + item.message
    }
}

fn push_fact_lines(out: &mut String, items: &Vec<ExplainFact>)
    ensures
        final(out)@ == fact_lines(old(out)@, items.deep_view()),
{
    let ghost start = out@;
    let ghost all = items.deep_view();
    let mut i: usize = 0;
    while i < items.len()
        invariant
            i <= items.len(),
            all == items.deep_view(),
            out@ == fact_lines(start, all.take(i as int)),
        decreases items.len() - i,
    {
        let item = &items[i];
        assert(all.take(i + 1).drop_last() =~= all.take(i as int));
        assert(all.take(i + 1).last() == item.deep_view());
        out.append("\n  ");
        out.append(item.kind.as_str());
        out.append(": ");
        out.append(item.message.as_str());
        i = i + 1;
    }
    assert(all.take(i as int) =~= all);
}

/// Limitations as lines.
pub open spec fn limitation_lines(out: Seq<char>, items: Seq<ExplainLimitationView>) -> Seq<char>
    decreases items.len(),
{
    if items.len() == 0 {
        out
    } else {
        let item = items.last();
        limitation_lines(out, items.drop_last())
            + "\n  "@
            + item.code
            + ": "@
            + item.message
    }
}

fn push_limitation_lines(out: &mut String, items: &Vec<ExplainLimitation>)
    ensures
        final(out)@ == limitation_lines(old(out)@, items.deep_view()),
{
    let ghost start = out@;
    let ghost all = items.deep_view();
    let mut i: usize = 0;
    while i < items.len()
        invariant
            i <= items.len(),
            all == items.deep_view(),
            out@ == limitation_lines(start, all.take(i as int)),
        decreases items.len() - i,
    {
        let item = &items[i];
        assert(all.take(i + 1).drop_last() =~= all.take(i as int));
        assert(all.take(i + 1).last() == item.deep_view());
        out.append("\n  ");
        out.append(item.code.as_str());
        out.append(": ");
        out.append(item.message.as_str());
        i = i + 1;
    }
    assert(all.take(i as int) =~= all);
}

/// Owners as lines.
pub open spec fn owner_lines(out: Seq<char>, items: Seq<ExplainOwnerView>) -> Seq<char>
    decreases items.len(),
{
    if items.len() == 0 {
        out
    } else {
        let item = items.last();
        owner_lines(out, items.drop_last())
            + "\n  "@
            + numbers::decimal(item.rank as nat)
            + ". "@
            + item.author
            + " share "@
            + item.ownership_share.text
            + " score "@
            + item.ownership_score.text
            + " touches "@
            + numbers::decimal(item.touch_count as nat)
    }
}

fn push_owner_lines(out: &mut String, items: &Vec<ExplainOwner>)
    ensures
        final(out)@ == owner_lines(old(out)@, items.deep_view()),
{
    let ghost start = out@;
    let ghost all = items.deep_view();
    let mut i: usize = 0;
    while i < items.len()
        invariant
            i <= items.len(),
            all == items.deep_view(),
            out@ == owner_lines(start, all.take(i as int)),
        decreases items.len() - i,
    {
        let item = &items[i];
        assert(all.take(i + 1).drop_last() =~= all.take(i as int));
        assert(all.take(i + 1).last() == item.deep_view());
        out.append("\n  ");
        numbers::push_decimal(out, item.rank);
        out.append(". ");
        out.append(item.author.as_str());
        out.append(" share ");
        out.append(item.ownership_share.text.as_str());
        out.append(" score ");
        out.append(item.ownership_score.text.as_str());
        out.append(" touches ");
        numbers::push_decimal(out, item.touch_count);
        i = i + 1;
    }
    assert(all.take(i as int) =~= all);
}

/// Limitations of the history as lines.
pub open spec fn context_limitation_lines(out: Seq<char>, items: Seq<ExplainLimitationView>) -> Seq<char>
    decreases items.len(),
{
    if items.len() == 0 {
        out
    } else {
        let item = items.last();
        context_limitation_lines(out, items.drop_last())
            + "\n  limitation "@
            + item.code
            + ": "@
            + item.message
    }
}

fn push_context_limitation_lines(out: &mut String, items: &Vec<ExplainLimitation>)
    ensures
        final(out)@ == context_limitation_lines(old(out)@, items.deep_view()),
{
    let ghost start = out@;
    let ghost all = items.deep_view();
    let mut i: usize = 0;
    while i < items.len()
        invariant
            i <= items.len(),
            all == items.deep_view(),
            out@ == context_limitation_lines(start, all.take(i as int)),
        decreases items.len() - i,
    {
        let item = &items[i];
        assert(all.take(i + 1).drop_last() =~= all.take(i as int));
        assert(all.take(i + 1).last() == item.deep_view());
        out.append("\n  limitation ");
        out.append(item.code.as_str());
        out.append(": ");
        out.append(item.message.as_str());
        i = i + 1;
    }
    assert(all.take(i as int) =~= all);
}

/// Files that change together with the explained one, as lines.
pub open spec fn cochange_lines(out: Seq<char>, items: Seq<CochangePartnerView>) -> Seq<char>
    decreases items.len(),
{
    if items.len() == 0 {
        out
    } else {
        let item = items.last();
        cochange_lines(out, items.drop_last())
            + "\n  cochange "@
            + item.path
            + " count "@
            + numbers::decimal(item.co_change_count as nat)
    }
}

fn push_cochange_lines(out: &mut String, items: &Vec<CochangePartner>)
    ensures
        final(out)@ == cochange_lines(old(out)@, items.deep_view()),
{
    let ghost start = out@;
    let ghost all = items.deep_view();
    let mut i: usize = 0;
    while i < items.len()
        invariant
            i <= items.len(),
            all == items.deep_view(),
            out@ == cochange_lines(start, all.take(i as int)),
        decreases items.len() - i,
    {
        let item = &items[i];
        assert(all.take(i + 1).drop_last() =~= all.take(i as int));
        assert(all.take(i + 1).last() == item.deep_view());
        out.append("\n  cochange ");
        out.append(item.path.as_str());
        out.append(" count ");
        numbers::push_decimal(out, item.co_change_count);
        i = i + 1;
    }
    assert(all.take(i as int) =~= all);
}

/// References as lines.
pub open spec fn reference_lines(out: Seq<char>, items: Seq<SourceReferenceView>) -> Seq<char>
    decreases items.len(),
{
    if items.len() == 0 {
        out
    } else {
        let item = items.last();
        reference_lines(out, items.drop_last())
            + "\n    "@
            + numbers::decimal(item.reference_index as nat)
            + " "@
            + item.reference_kind
            + " raw "@
            + item.raw_target
            + " resolved "@
            + shown(item.resolved_package)
    }
}

fn push_reference_lines(out: &mut String, items: &Vec<SourceReference>)
    ensures
        final(out)@ == reference_lines(old(out)@, items.deep_view()),
{
    let ghost start = out@;
    let ghost all = items.deep_view();
    let mut i: usize = 0;
    while i < items.len()
        invariant
            i <= items.len(),
            all == items.deep_view(),
            out@ == reference_lines(start, all.take(i as int)),
        decreases items.len() - i,
    {
        let item = &items[i];
        assert(all.take(i + 1).drop_last() =~= all.take(i as int));
        assert(all.take(i + 1).last() == item.deep_view());
        out.append("\n    ");
        numbers::push_decimal(out, item.reference_index);
        out.append(" ");
        out.append(item.reference_kind.as_str());
        out.append(" raw ");
        out.append(item.raw_target.as_str());
        out.append(" resolved ");
        out.append(shown_text(&item.resolved_package).as_str());
        i = i + 1;
    }
    assert(all.take(i as int) =~= all);
}

/// Dependencies as lines.
pub open spec fn edge_lines(out: Seq<char>, items: Seq<SourceEdgeView>) -> Seq<char>
    decreases items.len(),
{
    if items.len() == 0 {
        out
    } else {
        let item = items.last();
        edge_lines(out, items.drop_last())
            + "\n    "@
            + item.source_path
            + " ("@
            + item.source_package
            + ") -> "@
            + item.target_package
            + " ["@
            + item.reference_kind
            + "]"@
    }
}

fn push_edge_lines(out: &mut String, items: &Vec<SourceEdge>)
    ensures
        final(out)@ == edge_lines(old(out)@, items.deep_view()),
{
    let ghost start = out@;
    let ghost all = items.deep_view();
    let mut i: usize = 0;
    while i < items.len()
        invariant
            i <= items.len(),
            all == items.deep_view(),
            out@ == edge_lines(start, all.take(i as int)),
        decreases items.len() - i,
    {
        let item = &items[i];
        assert(all.take(i + 1).drop_last() =~= all.take(i as int));
        assert(all.take(i + 1).last() == item.deep_view());
        out.append("\n    ");
        out.append(item.source_path.as_str());
        out.append(" (");
        out.append(item.source_package.as_str());
        out.append(") -> ");
        out.append(item.target_package.as_str());
        out.append(" [");
        out.append(item.reference_kind.as_str());
        out.append("]");
        i = i + 1;
    }
    assert(all.take(i as int) =~= all);
}

/// The file, and the head of its score.
pub open spec fn file_text(out: Seq<char>, file: ExplainFileView) -> Seq<char> {
    out
        + "\nFile"@
        + "\n  path "@
        + file.relative_path
        + "\n  absolute_path "@
        + file.absolute_path
        + "\n  language "@
        + shown(file.language_id)
        + "  content_kind "@
        + file.content_kind
        + "  extension "@
        + shown(file.extension)
        + "\n  generated "@
        + shown_flag(file.is_generated)
        + "  vendor "@
        + shown_flag(file.is_vendor)
        + "  test "@
        + shown_flag(file.is_test)
        + "\n  parser_status "@
        + file.parser_status
        + "  parser_recognition_attempts "@
        + numbers::decimal(file.parser_recognition_attempts as nat)
        + "\nScore"@
}

fn push_file(out: &mut String, file: &ExplainFile)
    ensures
        final(out)@ == file_text(old(out)@, file.deep_view()),
{
    out.append("\nFile");
    out.append("\n  path ");
    out.append(file.relative_path.as_str());
    out.append("\n  absolute_path ");
    out.append(file.absolute_path.as_str());
    out.append("\n  language ");
    out.append(shown_text(&file.language_id).as_str());
    out.append("  content_kind ");
    out.append(file.content_kind.as_str());
    out.append("  extension ");
    out.append(shown_text(&file.extension).as_str());
    out.append("\n  generated ");
    out.append(flag_text(file.is_generated));
    out.append("  vendor ");
    out.append(flag_text(file.is_vendor));
    out.append("  test ");
    out.append(flag_text(file.is_test));
    out.append("\n  parser_status ");
    out.append(file.parser_status.as_str());
    out.append("  parser_recognition_attempts ");
    numbers::push_decimal(out, file.parser_recognition_attempts);
    out.append("\nScore");
}

/// A score as a line.
pub open spec fn score_text(out: Seq<char>, score: ExplainScoreView) -> Seq<char> {
    out
        + "\n  formula "@
        + score.formula_id
        + "  rank "@
        + numbers::decimal(score.rank as nat)
        + "  score "@
        + score.score.text
        + "  risk "@
        + score.risk_10.text
        + "/10  band "@
        + score.risk_band
}

fn push_score(out: &mut String, score: &ExplainScore)
    ensures
        final(out)@ == score_text(old(out)@, score.deep_view()),
{
    out.append("\n  formula ");
    out.append(score.formula_id.as_str());
    out.append("  rank ");
    numbers::push_decimal(out, score.rank);
    out.append("  score ");
    out.append(score.score.text.as_str());
    out.append("  risk ");
    out.append(score.risk_10.text.as_str());
    out.append("/10  band ");
    out.append(score.risk_band.as_str());
}

/// What was measured, as lines.
pub open spec fn metrics_text(out: Seq<char>, metrics: RawMetricsView) -> Seq<char> {
    out
        + "\nRaw Metrics"@
        + "\n  size lines "@
        + shown_number(metrics.line_count)
        + " bytes "@
        + shown_number(metrics.byte_size)
        + " mtime_ms "@
        + shown_number(metrics.mtime_ms)
        + "\n  symbols total "@
        + numbers::decimal(metrics.symbol_count as nat)
        + " functions "@
        + numbers::decimal(metrics.function_count as nat)
        + " methods "@
        + numbers::decimal(metrics.method_count as nat)
        + " types "@
        + numbers::decimal(metrics.type_count as nat)
        + " imports "@
        + numbers::decimal(metrics.import_count as nat)
        + "\n  complexity file "@
        + shown_number(metrics.complexity_pressure)
        + " max_function "@
        + shown_number(metrics.max_function_complexity_pressure)
        + "\n  git commits "@
        + numbers::decimal(metrics.commits_per_file as nat)
        + " churn total "@
        + numbers::decimal(metrics.total_churn_lines as nat)
        + " recent "@
        + numbers::decimal(metrics.recent_churn_lines as nat)
        + " added "@
        + numbers::decimal(metrics.total_added_lines as nat)
        + " deleted "@
        + numbers::decimal(metrics.total_deleted_lines as nat)
        + " authors "@
        + numbers::decimal(metrics.author_count as nat)
        + "\n  ownership owner_count "@
        + shown_number(metrics.owner_count)
        + " dominant_owner "@
        + shown(metrics.dominant_owner)
        + " dominant_share "@
        + shown_real(metrics.dominant_owner_share)
        + "\n  coupling source_in "@
        + shown_number(metrics.source_coupling_pressure_in)
        + " source_out "@
        + shown_number(metrics.source_coupling_pressure_out)
        + " co_changed_files "@
        + numbers::decimal(metrics.co_changed_file_count as nat)
}

fn push_metrics(out: &mut String, metrics: &RawMetrics)
    ensures
        final(out)@ == metrics_text(old(out)@, metrics.deep_view()),
{
    out.append("\nRaw Metrics");
    out.append("\n  size lines ");
    out.append(number_text(metrics.line_count).as_str());
    out.append(" bytes ");
    out.append(number_text(metrics.byte_size).as_str());
    out.append(" mtime_ms ");
    out.append(number_text(metrics.mtime_ms).as_str());
    out.append("\n  symbols total ");
    numbers::push_decimal(out, metrics.symbol_count);
    out.append(" functions ");
    numbers::push_decimal(out, metrics.function_count);
    out.append(" methods ");
    numbers::push_decimal(out, metrics.method_count);
    out.append(" types ");
    numbers::push_decimal(out, metrics.type_count);
    out.append(" imports ");
    numbers::push_decimal(out, metrics.import_count);
    out.append("\n  complexity file ");
    out.append(number_text(metrics.complexity_pressure).as_str());
    out.append(" max_function ");
    out.append(number_text(metrics.max_function_complexity_pressure).as_str());
    out.append("\n  git commits ");
    numbers::push_decimal(out, metrics.commits_per_file);
    out.append(" churn total ");
    numbers::push_decimal(out, metrics.total_churn_lines);
    out.append(" recent ");
    numbers::push_decimal(out, metrics.recent_churn_lines);
    out.append(" added ");
    numbers::push_decimal(out, metrics.total_added_lines);
    out.append(" deleted ");
    numbers::push_decimal(out, metrics.total_deleted_lines);
    out.append(" authors ");
    numbers::push_decimal(out, metrics.author_count);
    out.append("\n  ownership owner_count ");
    out.append(number_text(metrics.owner_count).as_str());
    out.append(" dominant_owner ");
    out.append(shown_text(&metrics.dominant_owner).as_str());
    out.append(" dominant_share ");
    out.append(real_text(&metrics.dominant_owner_share).as_str());
    out.append("\n  coupling source_in ");
    out.append(number_text(metrics.source_coupling_pressure_in).as_str());
    out.append(" source_out ");
    out.append(number_text(metrics.source_coupling_pressure_out).as_str());
    out.append(" co_changed_files ");
    numbers::push_decimal(out, metrics.co_changed_file_count);
}

/// The head of what a file depends on.
pub open spec fn coupling_text(out: Seq<char>, coupling: SourceCouplingView) -> Seq<char> {
    out
        + "\nSource Coupling"@
        + "\n  package "@
        + shown(coupling.package_path)
        + "  inbound "@
        + shown_number(coupling.inbound_count)
        + "  outbound "@
        + shown_number(coupling.outbound_count)
}

fn push_coupling(out: &mut String, coupling: &SourceCoupling)
    ensures
        final(out)@ == coupling_text(old(out)@, coupling.deep_view()),
{
    out.append("\nSource Coupling");
    out.append("\n  package ");
    out.append(shown_text(&coupling.package_path).as_str());
    out.append("  inbound ");
    out.append(number_text(coupling.inbound_count).as_str());
    out.append("  outbound ");
    out.append(number_text(coupling.outbound_count).as_str());
}

/// The terms of a score.
pub open spec fn terms_section(out: Seq<char>, items: Seq<ExplainTermView>) -> Seq<char> {
    if items.len() == 0 {
        out + "\nTerms"@ + "\n  none"@
    } else {
        term_lines(out + "\nTerms"@, items)
    }
}

fn push_terms_section(out: &mut String, items: &Vec<ExplainTerm>)
    ensures
        final(out)@ == terms_section(old(out)@, items.deep_view()),
{
    out.append("\nTerms");
    if items.len() == 0 {
        out.append("\n  none");
    } else {
        push_term_lines(out, items);
    }
}

/// The facts.
pub open spec fn facts_section(out: Seq<char>, items: Seq<ExplainFactView>) -> Seq<char> {
    if items.len() == 0 {
        out + "\nFacts"@ + "\n  none"@
    } else {
        fact_lines(out + "\nFacts"@, items)
    }
}

fn push_facts_section(out: &mut String, items: &Vec<ExplainFact>)
    ensures
        final(out)@ == facts_section(old(out)@, items.deep_view()),
{
    out.append("\nFacts");
    if items.len() == 0 {
        out.append("\n  none");
    } else {
        push_fact_lines(out, items);
    }
}

/// The limitations.
pub open spec fn limitations_section(out: Seq<char>, items: Seq<ExplainLimitationView>) -> Seq<char> {
    if items.len() == 0 {
        out + "\nLimitations"@ + "\n  none"@
    } else {
        limitation_lines(out + "\nLimitations"@, items)
    }
}

fn push_limitations_section(out: &mut String, items: &Vec<ExplainLimitation>)
    ensures
        final(out)@ == limitations_section(old(out)@, items.deep_view()),
{
    out.append("\nLimitations");
    if items.len() == 0 {
        out.append("\n  none");
    } else {
        push_limitation_lines(out, items);
    }
}

/// The diagnostics of the parser.
pub open spec fn diagnostics_section(out: Seq<char>, items: Seq<ExplainLimitationView>) -> Seq<char> {
    if items.len() == 0 {
        out + "\nParser Diagnostics"@ + "\n  none"@
    } else {
        limitation_lines(out + "\nParser Diagnostics"@, items)
    }
}

fn push_diagnostics_section(out: &mut String, items: &Vec<ExplainLimitation>)
    ensures
        final(out)@ == diagnostics_section(old(out)@, items.deep_view()),
{
    out.append("\nParser Diagnostics");
    if items.len() == 0 {
        out.append("\n  none");
    } else {
        push_limitation_lines(out, items);
    }
}

/// The owners.
pub open spec fn owners_section(out: Seq<char>, items: Seq<ExplainOwnerView>) -> Seq<char> {
    if items.len() == 0 {
        out + "\nOwners"@ + "\n  none"@
    } else {
        owner_lines(out + "\nOwners"@, items)
    }
}

fn push_owners_section(out: &mut String, items: &Vec<ExplainOwner>)
    ensures
        final(out)@ == owners_section(old(out)@, items.deep_view()),
{
    out.append("\nOwners");
    if items.len() == 0 {
        out.append("\n  none");
    } else {
        push_owner_lines(out, items);
    }
}

/// The limitations of the history.
pub open spec fn context_limitations_section(out: Seq<char>, items: Seq<ExplainLimitationView>) -> Seq<char> {
    if items.len() == 0 {
        out + "\n  limitations none"@
    } else {
        context_limitation_lines(out, items)
    }
}

fn push_context_limitations_section(out: &mut String, items: &Vec<ExplainLimitation>)
    ensures
        final(out)@ == context_limitations_section(old(out)@, items.deep_view()),
{
    if items.len() == 0 {
        out.append("\n  limitations none");
    } else {
        push_context_limitation_lines(out, items);
    }
}

/// The files that change together with the explained one.
pub open spec fn cochanges_section(out: Seq<char>, items: Seq<CochangePartnerView>) -> Seq<char> {
    if items.len() == 0 {
        out + "\n  cochanges none"@
    } else {
        cochange_lines(out, items)
    }
}

fn push_cochanges_section(out: &mut String, items: &Vec<CochangePartner>)
    ensures
        final(out)@ == cochanges_section(old(out)@, items.deep_view()),
{
    if items.len() == 0 {
        out.append("\n  cochanges none");
    } else {
        push_cochange_lines(out, items);
    }
}

/// References below a title.
pub open spec fn references_section(out: Seq<char>, title: Seq<char>, items: Seq<SourceReferenceView>) -> Seq<char> {
    if items.len() == 0 {
        out + "\n"@ + title + " none"@
    } else {
        reference_lines(out + "\n"@ + title, items)
    }
}

fn push_references_section(out: &mut String, title: &str, items: &Vec<SourceReference>)
    ensures
        final(out)@ == references_section(old(out)@, title@, items.deep_view()),
{
    out.append("\n");
    out.append(title);
    if items.len() == 0 {
        out.append(" none");
    } else {
        push_reference_lines(out, items);
    }
}

/// Dependencies below a title.
pub open spec fn edges_section(out: Seq<char>, title: Seq<char>, items: Seq<SourceEdgeView>) -> Seq<char> {
    if items.len() == 0 {
        out + "\n"@ + title + " none"@
    } else {
        edge_lines(out + "\n"@ + title, items)
    }
}

fn push_edges_section(out: &mut String, title: &str, items: &Vec<SourceEdge>)
    ensures
        final(out)@ == edges_section(old(out)@, title@, items.deep_view()),
{
    out.append("\n");
    out.append(title);
    if items.len() == 0 {
        out.append(" none");
    } else {
        push_edge_lines(out, items);
    }
}

/// Entries of the metadata as lines.
pub open spec fn metadata_lines(
    out: Seq<char>,
    metadata: Map<Seq<char>, Seq<char>>,
    keys: Seq<Seq<char>>,
) -> Seq<char>
    decreases keys.len(),
{
    if keys.len() == 0 {
        out
    } else {
        metadata_lines(out, metadata, keys.drop_last()) + "\n  "@ + keys.last() + " "@
            + metadata[keys.last()]
    }
}

/// The metadata by ascending key.
pub open spec fn metadata_section(out: Seq<char>, metadata: Map<Seq<char>, Seq<char>>) -> Seq<char> {
    let keys = table::listing(metadata.dom());
    if keys.len() == 0 {
        out + "\nGit Context"@ + "\n  metadata none"@
    } else {
        metadata_lines(out + "\nGit Context"@, metadata, keys)
    }
}

fn push_metadata_section(out: &mut String, metadata: &TextMap<String>)
    requires
        metadata.wf(),
    ensures
        final(out)@ == metadata_section(old(out)@, metadata.deep_view()),
{
    let ghost keys = metadata.keys.deep_view();
    let ghost entries = metadata.deep_view();
    proof {
        metadata.keys_are_dom();
        assert(entries.dom() =~= metadata@.dom());
        table::listing_of_ascending(keys);
    }
    out.append("\nGit Context");
    let ghost start = out@;
    if metadata.keys.len() == 0 {
        out.append("\n  metadata none");
        return;
    }
    let mut i: usize = 0;
    while i < metadata.keys.len()
        invariant
            i <= metadata.keys.len(),
            metadata.wf(),
            keys == metadata.keys.deep_view(),
            entries == metadata.deep_view(),
            out@ == metadata_lines(start, entries, keys.take(i as int)),
        decreases metadata.keys.len() - i,
    {
        proof {
            metadata.at_index(i as int);
            assert(keys.take(i + 1).drop_last() =~= keys.take(i as int));
            assert(keys.take(i + 1).last() == metadata.keys@[i as int]@);
        }
        out.append("\n  ");
        out.append(metadata.keys[i].as_str());
        out.append(" ");
        out.append(metadata.values[i].as_str());
        i = i + 1;
    }
    assert(keys.take(i as int) =~= keys);
}

/// The score, or why there is none.
pub open spec fn score_section(
    out: Seq<char>,
    score: Option<ExplainScoreView>,
    reasons: Seq<ExplainLimitationView>,
) -> Seq<char> {
    match score {
        Some(score) => score_text(out, score),
        None => reason_lines(out + "\n  unavailable"@, reasons),
    }
}

/// The report on a file as text.
pub open spec fn explain_text(report: ExplainReportView) -> Seq<char> {
    let file = file_text("explain"@, report.file);
    let score = score_section(file, report.score, report.score_unavailable_reasons);
    let terms = terms_section(score, report.terms);
    let metrics = metrics_text(terms, report.raw_metrics);
    let facts = facts_section(metrics, report.facts);
    let limitations = limitations_section(facts, report.limitations);
    let diagnostics = diagnostics_section(limitations, report.parser_diagnostics);
    let owners = owners_section(diagnostics, report.owners);
    let metadata = metadata_section(owners, report.git_context.metadata);
    let context = context_limitations_section(metadata, report.git_context.limitations);
    let cochanges = cochanges_section(context, report.git_context.cochanges);
    let coupling = coupling_text(cochanges, report.source_coupling);
    let references = references_section(
        coupling,
        "  outbound_references"@,
        report.source_coupling.outbound_references,
    );
    let outbound = edges_section(
        references,
        "  outbound_edges"@,
        report.source_coupling.outbound_edges,
    );
    edges_section(outbound, "  inbound_sources"@, report.source_coupling.inbound_sources)
}

/// Renders the report on a file.
pub fn render_explain_text(report: &ExplainReport) -> (output: String)
    requires
        report.git_context.metadata.wf(),
    ensures
        output@ == explain_text(report.deep_view()),
{
    let mut text = "explain".to_owned();
    let out = &mut text;
    push_file(out, &report.file);
    match &report.score {
        Some(score) => push_score(out, score),
        None => {
            out.append("\n  unavailable");
            push_reason_lines(out, &report.score_unavailable_reasons);
        },
    }
    push_terms_section(out, &report.terms);
    push_metrics(out, &report.raw_metrics);
    push_facts_section(out, &report.facts);
    push_limitations_section(out, &report.limitations);
    push_diagnostics_section(out, &report.parser_diagnostics);
    push_owners_section(out, &report.owners);
    push_metadata_section(out, &report.git_context.metadata);
    push_context_limitations_section(out, &report.git_context.limitations);
    push_cochanges_section(out, &report.git_context.cochanges);
    push_coupling(out, &report.source_coupling);
    push_references_section(
        out,
        "  outbound_references",
        &report.source_coupling.outbound_references,
    );
    push_edges_section(out, "  outbound_edges", &report.source_coupling.outbound_edges);
    push_edges_section(out, "  inbound_sources", &report.source_coupling.inbound_sources);
    text
}

} // verus!
