//! What holds of every explanation.

use vstd::prelude::*;

use crate::explain;
use crate::explain::diagnostics;
use crate::explain::diagnostics::{JsonFieldView, JsonItemView};
use crate::explain::rows;
use crate::explain::rows::FileFactsColumnsView;
use crate::explain::{ExplainFileView, ExplainLimitationView, RawMetricsView};

verus! {

/// Whether a number is a count that the index keeps: the same, or none where it is negative.
pub open spec fn is_count_of(n: u64, kept: i64) -> bool {
    if kept >= 0 {
        n == kept
    } else {
        n == 0
    }
}

/// Whether a number is a count that the index may keep.
pub open spec fn is_known_count_of(n: Option<u64>, kept: Option<i64>) -> bool {
    match (n, kept) {
        (Some(n), Some(kept)) => is_count_of(n, kept),
        (None, None) => true,
        _ => false,
    }
}

/// What is said of a file is what the index keeps of it, column by column.
pub proof fn files_are_what_the_index_keeps(columns: FileFactsColumnsView)
    ensures
        ({
            let file = rows::facts_of(columns).file;
            &&& file.relative_path == columns.relative_path
            &&& file.absolute_path == columns.absolute_path
            &&& is_count_of(file.active_scan_id, columns.active_scan_id)
            &&& file.language_id == columns.language_id
            &&& file.content_kind == columns.content_kind
            &&& file.extension == columns.extension
            &&& file.is_generated <==> columns.is_generated != 0
            &&& file.is_vendor <==> columns.is_vendor != 0
            &&& file.is_test <==> columns.is_test != 0
            &&& file.parser_status == columns.parser_status
            &&& is_count_of(
                file.parser_recognition_attempts,
                columns.parser_recognition_attempts,
            )
            &&& rows::facts_of(columns).diagnostics == columns.diagnostics
        }),
{
}

/// The numbers of a file are those that the index keeps, column by column.
pub proof fn numbers_are_what_the_index_keeps(columns: FileFactsColumnsView)
    ensures
        ({
            let raw = rows::facts_of(columns).raw_metrics;
            &&& is_known_count_of(raw.byte_size, columns.byte_size)
            &&& is_known_count_of(raw.mtime_ms, columns.mtime_ms)
            &&& is_known_count_of(raw.line_count, columns.line_count)
            &&& is_count_of(raw.symbol_count, columns.symbol_count)
            &&& is_count_of(raw.function_count, columns.function_count)
            &&& is_count_of(raw.method_count, columns.method_count)
            &&& is_count_of(raw.type_count, columns.type_count)
            &&& is_count_of(raw.import_count, columns.import_count)
            &&& is_known_count_of(raw.complexity_pressure, columns.complexity_pressure)
            &&& is_known_count_of(
                raw.max_function_complexity_pressure,
                columns.max_function_complexity_pressure,
            )
            &&& is_count_of(raw.commits_per_file, columns.commits_per_file)
            &&& is_count_of(raw.total_added_lines, columns.total_added_lines)
            &&& is_count_of(raw.total_deleted_lines, columns.total_deleted_lines)
            &&& is_count_of(raw.total_churn_lines, columns.total_churn_lines)
            &&& is_count_of(raw.recent_added_lines, columns.recent_added_lines)
            &&& is_count_of(raw.recent_deleted_lines, columns.recent_deleted_lines)
            &&& is_count_of(raw.recent_churn_lines, columns.recent_churn_lines)
            &&& is_count_of(raw.author_count, columns.author_count)
            &&& is_known_count_of(raw.first_touch_timestamp, columns.first_touch_timestamp)
            &&& is_known_count_of(raw.last_touch_timestamp, columns.last_touch_timestamp)
            &&& is_known_count_of(raw.file_age_days, columns.file_age_days)
            &&& is_known_count_of(raw.owner_count, columns.owner_count)
            &&& raw.dominant_owner == columns.dominant_owner
            &&& raw.dominant_owner_share == columns.dominant_owner_share
            &&& is_count_of(raw.co_changed_file_count, columns.co_changed_file_count)
            &&& is_known_count_of(
                raw.source_coupling_pressure_in,
                columns.source_coupling_pressure_in,
            )
            &&& is_known_count_of(
                raw.source_coupling_pressure_out,
                columns.source_coupling_pressure_out,
            )
        }),
{
}

/// Whether a limitation of a code is among others.
pub open spec fn has_code(reasons: Seq<ExplainLimitationView>, code: Seq<char>) -> bool {
    exists|i: int| 0 <= i < reasons.len() && (#[trigger] reasons[i]).code == code
}

proof fn words_of_reasons()
    ensures
        "unsupported_language"@ != "generated_or_vendor_excluded"@,
        "unsupported_language"@ != "missing_parser_metrics"@,
        "unsupported_language"@ != "missing_score_row"@,
        "generated_or_vendor_excluded"@ != "missing_parser_metrics"@,
        "generated_or_vendor_excluded"@ != "missing_score_row"@,
        "missing_parser_metrics"@ != "missing_score_row"@,
{
    reveal_strlit("unsupported_language");
    reveal_strlit("generated_or_vendor_excluded");
    reveal_strlit("missing_parser_metrics");
    reveal_strlit("missing_score_row");
    assert("unsupported_language"@.len() == 20);
    assert("generated_or_vendor_excluded"@.len() == 28);
    assert("missing_parser_metrics"@.len() == 22);
    assert("missing_score_row"@.len() == 17);
}

/// A file without a score is told why: it is not in Go, it is excluded, or it was not measured; and
/// only where none of these holds, that the score is missing.
pub proof fn missing_scores_have_their_reasons(file: ExplainFileView, metrics: RawMetricsView)
    ensures
        ({
            let reasons = explain::missing_score_reasons(file, metrics);
            let foreign = file.language_id != Some("go"@);
            let excluded = file.is_vendor || file.is_generated;
            let unmeasured = metrics.max_function_complexity_pressure is None
                && metrics.complexity_pressure is None;
            &&& reasons.len() > 0
            &&& has_code(reasons, "unsupported_language"@) <==> foreign
            &&& has_code(reasons, "generated_or_vendor_excluded"@) <==> excluded
            &&& has_code(reasons, "missing_parser_metrics"@) <==> unmeasured
            &&& has_code(reasons, "missing_score_row"@) <==> !foreign && !excluded && !unmeasured
        }),
{
    words_of_reasons();
    let reasons = explain::missing_score_reasons(file, metrics);
    let foreign = file.language_id != Some("go"@);
    let excluded = file.is_vendor || file.is_generated;
    let n: int = if foreign {
        1
    } else {
        0
    };
    let m: int = if excluded {
        n + 1
    } else {
        n
    };
    assert(foreign ==> reasons[0].code == "unsupported_language"@);
    assert(excluded ==> reasons[n].code == "generated_or_vendor_excluded"@);
    if metrics.max_function_complexity_pressure is None && metrics.complexity_pressure is None {
        assert(reasons[m].code == "missing_parser_metrics"@);
    } else if !foreign && !excluded {
        assert(reasons[0].code == "missing_score_row"@);
    }
}

proof fn first_fields_count(fields: Seq<JsonFieldView>, k: int, name: Seq<char>)
    requires
        0 <= k < fields.len(),
        fields[k].name == name,
        forall|i: int| 0 <= i < k ==> (#[trigger] fields[i]).name != name,
    ensures
        diagnostics::field_text(fields, name) == fields[k].text,
    decreases k,
{
    if k > 0 {
        assert(fields[0].name != name);
        let rest = fields.skip(1);
        assert(rest[k - 1] == fields[k]);
        assert forall|i: int| 0 <= i < k - 1 implies (#[trigger] rest[i]).name != name by {
            assert(rest[i] == fields[i + 1]);
        }
        first_fields_count(rest, k - 1, name);
    }
}

/// An item with a code and a message is shown with both.
pub proof fn items_with_a_code_are_shown(
    items: Seq<JsonItemView>,
    i: int,
    c: int,
    m: int,
    code: Seq<char>,
    message: Seq<char>,
)
    requires
        0 <= i < items.len(),
        items[i].fields is Some,
        ({
            let fields = items[i].fields->0;
            &&& 0 <= c < fields.len()
            &&& fields[c].name == "code"@
            &&& fields[c].text == Some(code)
            &&& forall|k: int| 0 <= k < c ==> (#[trigger] fields[k]).name != "code"@
            &&& 0 <= m < fields.len()
            &&& fields[m].name == "message"@
            &&& fields[m].text == Some(message)
            &&& forall|k: int| 0 <= k < m ==> (#[trigger] fields[k]).name != "message"@
        }),
    ensures
        diagnostics::diagnostics_of(Some(items)).contains(
            ExplainLimitationView { code, message },
        ),
{
    let fields = items[i].fields->0;
    first_fields_count(fields, c, "code"@);
    first_fields_count(fields, m, "message"@);
    given_diagnostics_are_listed(items, i, ExplainLimitationView { code, message });
}

proof fn given_diagnostics_are_listed(
    items: Seq<JsonItemView>,
    i: int,
    one: ExplainLimitationView,
)
    requires
        0 <= i < items.len(),
        diagnostics::diagnostic_of(items[i]) == Some(one),
    ensures
        diagnostics::listed_diagnostics(items).contains(one),
    decreases items.len(),
{
    let all = diagnostics::listed_diagnostics(items);
    if i < items.len() - 1 {
        let front = items.drop_last();
        assert(front[i] == items[i]);
        given_diagnostics_are_listed(front, i, one);
        let before = diagnostics::listed_diagnostics(front);
        let k = choose|k: int| 0 <= k < before.len() && before[k] == one;
        assert(all[k] == one);
    } else {
        assert(all[all.len() - 1] == one);
    }
}

/// What cannot be read is shown as one diagnostic that says so.
pub proof fn unreadable_diagnostics_are_told()
    ensures
        diagnostics::diagnostics_of(None).len() == 1,
        diagnostics::diagnostics_of(None)[0].code == "invalid_diagnostics_json"@,
{
}

/// The limitations of a history are the messages that its metadata keep for them.
pub proof fn histories_tell_their_limitations(metadata: Map<Seq<char>, Seq<char>>)
    ensures
        ({
            let all = explain::history_limitations(metadata);
            &&& metadata.dom().contains("git_diagnostic_message"@) ==> all.contains(
                ExplainLimitationView {
                    code: "git_diagnostic"@,
                    message: metadata["git_diagnostic_message"@],
                },
            )
            &&& metadata.dom().contains("git_merge_heavy_warning"@) ==> all.contains(
                ExplainLimitationView {
                    code: "git_merge_heavy"@,
                    message: metadata["git_merge_heavy_warning"@],
                },
            )
            &&& metadata.dom().contains("git_broad_commit_warning"@) ==> all.contains(
                ExplainLimitationView {
                    code: "git_broad_commit"@,
                    message: metadata["git_broad_commit_warning"@],
                },
            )
            &&& metadata.dom().contains("git_author_concentration_warning"@) ==> all.contains(
                ExplainLimitationView {
                    code: "git_author_concentration"@,
                    message: metadata["git_author_concentration_warning"@],
                },
            )
        }),
{
    let all = explain::history_limitations(metadata);
    let a: int = if metadata.dom().contains("git_diagnostic_message"@) {
        1
    } else {
        0
    };
    let b: int = if metadata.dom().contains("git_merge_heavy_warning"@) {
        a + 1
    } else {
        a
    };
    let c: int = if metadata.dom().contains("git_broad_commit_warning"@) {
        b + 1
    } else {
        b
    };
    assert(metadata.dom().contains("git_diagnostic_message"@) ==> all[0].code == "git_diagnostic"@
        && all[0].message == metadata["git_diagnostic_message"@]);
    assert(metadata.dom().contains("git_merge_heavy_warning"@) ==> all[a].code
        == "git_merge_heavy"@ && all[a].message == metadata["git_merge_heavy_warning"@]);
    assert(metadata.dom().contains("git_broad_commit_warning"@) ==> all[b].code
        == "git_broad_commit"@ && all[b].message == metadata["git_broad_commit_warning"@]);
    assert(metadata.dom().contains("git_author_concentration_warning"@) ==> all[c].code
        == "git_author_concentration"@ && all[c].message
        == metadata["git_author_concentration_warning"@]);
}

} // verus!
