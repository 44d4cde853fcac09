//! What holds of every scan in short.

use vstd::prelude::*;

use crate::run;
use crate::run::{BandCounts, PipelineStateView, ScanRunSummaryView, ScanSummaryView};
use crate::text;

verus! {

/// Whether a history was read: its confidence says how, or an index of one was used again.
pub open spec fn has_history(state: PipelineStateView) -> bool {
    ||| state.git_status.confidence == Some("full"@)
    ||| state.git_status.confidence == Some("bounded"@)
    ||| state.git_status.confidence == Some("incremental"@)
    ||| state.git_status.confidence == Some("up_to_date"@)
    ||| state.git_status.confidence == Some("first_parent_only"@)
    ||| state.git_status.index_action == Some("reused"@)
}

proof fn words_of_history()
    ensures
        "absent"@ != "full"@,
        "absent"@ != "bounded"@,
        "absent"@ != "incremental"@,
        "absent"@ != "first_parent_only"@,
        "none"@ != "high"@,
        "none"@ != "medium"@,
{
    reveal_strlit("absent");
    reveal_strlit("full");
    reveal_strlit("bounded");
    reveal_strlit("incremental");
    reveal_strlit("first_parent_only");
    reveal_strlit("none");
    reveal_strlit("high");
    reveal_strlit("medium");
    assert("absent"@.len() == 6);
    assert("full"@.len() == 4);
    assert("bounded"@.len() == 7);
    assert("incremental"@.len() == 11);
    assert("first_parent_only"@.len() == 17);
    assert("none"@.len() == 4 && "none"@[0] == 'n');
    assert("high"@.len() == 4 && "high"@[0] == 'h');
    assert("medium"@.len() == 6);
}

/// A scan can be relied on where its confidence is high or medium and a history was read.
pub proof fn reliable_scans_have_a_history(
    state: PipelineStateView,
    summary: Option<ScanSummaryView>,
    files_by_band: BandCounts,
)
    ensures
        ({
            let out = run::run_of(state, summary, files_by_band);
            &&& out.assessment_reliable <==> (out.scoring_confidence == "high"@
                || out.scoring_confidence == "medium"@) && has_history(state)
            &&& out.scan.git_history == "absent"@ <==> !has_history(state)
            &&& out.scan.scan_type == "incremental"@ || out.scan.scan_type == "full"@
            &&& state.git_status.confidence == Some("full"@) ==> out.scan.git_history == "full"@
            &&& state.git_status.confidence == Some("first_parent_only"@) ==> out.scan.git_history
                == "first_parent_only"@
        }),
{
    words_of_history();
    words_of_confidence();
}

proof fn words_of_confidence()
    ensures
        "first_parent_only"@ != "full"@,
        "first_parent_only"@ != "bounded"@,
        "first_parent_only"@ != "incremental"@,
        "first_parent_only"@ != "up_to_date"@,
{
    reveal_strlit("full");
    reveal_strlit("bounded");
    reveal_strlit("incremental");
    reveal_strlit("first_parent_only");
    reveal_strlit("up_to_date");
    assert("full"@.len() == 4);
    assert("bounded"@.len() == 7);
    assert("incremental"@.len() == 11);
    assert("up_to_date"@.len() == 10);
    assert("first_parent_only"@.len() == 17);
}

/// A scan is incremental where an index was used again or brought up to date.
pub proof fn scans_of_an_index_are_incremental(
    state: PipelineStateView,
    summary: Option<ScanSummaryView>,
    files_by_band: BandCounts,
)
    ensures
        ({
            let scan = run::run_of(state, summary, files_by_band).scan;
            let action = state.git_status.index_action;
            scan.scan_type == if action == Some("incrementally_updated"@) || action == Some(
                "reused"@,
            ) {
                "incremental"@
            } else {
                "full"@
            }
        }),
{
}

/// The counts of a scan are those of its run; without a total, the files that were found are those
/// that were listed.
pub proof fn scans_keep_their_counts(
    state: PipelineStateView,
    summary: Option<ScanSummaryView>,
    files_by_band: BandCounts,
)
    ensures
        ({
            let out = run::run_of(state, summary, files_by_band);
            &&& out.scan.duration_ms == state.elapsed_ms
            &&& out.scan.files_analyzed == state.analyzed_files
            &&& out.scan.commits_processed == state.git_commits_processed
            &&& out.scan.commits_total == state.total_git_commits
            &&& state.total_files matches Some(total) ==> out.scan.files_detected == total
            &&& state.total_files is None ==> out.scan.files_detected == state.enumerated_files
            &&& out.risk.files_by_band == files_by_band
        }),
{
}

/// The risk is known where the project is scored with some confidence, and is then that of the
/// project; else it is unavailable.
pub proof fn risks_are_those_of_scored_projects(
    state: PipelineStateView,
    summary: Option<ScanSummaryView>,
    files_by_band: BandCounts,
)
    ensures
        ({
            let out = run::run_of(state, summary, files_by_band);
            &&& summary is None || summary->0.project is None ==> {
                &&& out.scoring_confidence == "none"@
                &&& out.risk.score is None
                &&& out.risk.band == "unavailable"@
                &&& out.risk.primary_driver is None
            }
            &&& summary is Some && summary->0.project is Some ==> {
                let project = summary->0.project->0;
                &&& out.scoring_confidence == project.confidence
                &&& project.confidence == "none"@ ==> out.risk.score is None && out.risk.band
                    == "unavailable"@
                &&& project.confidence != "none"@ ==> out.risk.score == Some(project.risk_10)
                    && out.risk.band == project.risk_band
            }
        }),
{
}

/// Whether a dimension is shown as a driver.
pub open spec fn is_driver(dimension: Seq<char>, id: Seq<char>, label: Seq<char>) -> bool {
    ||| dimension == "churn"@ && id == "churn"@ && label == "Churn"@
    ||| dimension == "recent_churn"@ && id == "churn"@ && label == "Recent churn"@
    ||| dimension == "complexity_pressure"@ && id == "complexity"@ && label == "Complexity"@
    ||| dimension == "cochange_pressure"@ && id == "cochange"@ && label == "Co-change"@
}

proof fn words_of_drivers()
    ensures
        "churn"@ != "recent_churn"@,
        "churn"@ != "complexity_pressure"@,
        "churn"@ != "cochange_pressure"@,
        "recent_churn"@ != "complexity_pressure"@,
        "recent_churn"@ != "cochange_pressure"@,
        "complexity_pressure"@ != "cochange_pressure"@,
{
    reveal_strlit("churn");
    reveal_strlit("recent_churn");
    reveal_strlit("complexity_pressure");
    reveal_strlit("cochange_pressure");
    assert("churn"@.len() == 5);
    assert("recent_churn"@.len() == 12);
    assert("complexity_pressure"@.len() == 19);
    assert("cochange_pressure"@.len() == 17);
}

/// The dimension that dominates a project is its driver, where it is one that is shown.
pub proof fn dominant_dimensions_drive_the_risk(
    state: PipelineStateView,
    summary: ScanSummaryView,
    files_by_band: BandCounts,
    dimension: Seq<char>,
    id: Seq<char>,
    label: Seq<char>,
)
    requires
        summary.project is Some,
        summary.project->0.dominant_dimension == Some(dimension),
        is_driver(dimension, id, label),
    ensures
        run::run_of(state, Some(summary), files_by_band).risk.primary_driver matches Some(driver)
            && driver.id == id && driver.label == label,
{
    words_of_drivers();
}

/// Whether a character is an ASCII letter.
pub open spec fn is_letter(c: char) -> bool {
    ('a' <= c && c <= 'z') || ('A' <= c && c <= 'Z')
}

/// Whether a text starts with a letter and ends with what ends no sentence.
pub open spec fn is_phrase(s: Seq<char>) -> bool {
    s.len() > 0 && is_letter(s[0]) && s.last() != '.' && s.last() != '!' && s.last() != '?'
        && !text::is_white(s.last())
}

proof fn stops_come_off(s: Seq<char>, stops: Seq<char>)
    requires
        s.len() > 0,
        s.last() != '.' && s.last() != '!' && s.last() != '?',
        forall|i: int|
            0 <= i < stops.len() ==> #[trigger] stops[i] == '.' || stops[i] == '!' || stops[i]
                == '?',
    ensures
        run::without_stops(s + stops) == s,
    decreases stops.len(),
{
    if stops.len() == 0 {
        assert(s + stops =~= s);
    } else {
        let fewer = stops.drop_last();
        assert forall|i: int| 0 <= i < fewer.len() implies #[trigger] fewer[i] == '.' || fewer[i]
            == '!' || fewer[i] == '?' by {
            assert(fewer[i] == stops[i]);
        }
        stops_come_off(s, fewer);
        assert(stops[stops.len() - 1] == stops.last());
        assert((s + stops).drop_last() =~= s + fewer);
    }
}

/// A message starts with a capital and goes on as it is written, without the white space around it
/// and without what ends its last sentence.
pub proof fn messages_are_put_as_phrases(
    run: ScanRunSummaryView,
    summary: ScanSummaryView,
    version: Seq<char>,
    epoch_secs: u64,
    k: int,
    before: Seq<char>,
    phrase: Seq<char>,
    stops: Seq<char>,
    after: Seq<char>,
)
    requires
        0 <= k < summary.limitations.len(),
        summary.limitations[k].message == before + (phrase + stops) + after,
        forall|i: int| 0 <= i < before.len() ==> text::is_white(#[trigger] before[i]),
        forall|i: int| 0 <= i < after.len() ==> text::is_white(#[trigger] after[i]),
        is_phrase(phrase),
        forall|i: int|
            0 <= i < stops.len() ==> #[trigger] stops[i] == '.' || stops[i] == '!' || stops[i]
                == '?',
    ensures
        ({
            let out = run::output_of(run, Some(summary), version, epoch_secs);
            let message = out.limitations[k].message;
            &&& out.limitations.len() == summary.limitations.len()
            &&& out.limitations[k].code == summary.limitations[k].code
            &&& message.len() == phrase.len()
            &&& 'A' <= message[0] <= 'Z'
            &&& phrase[0] == message[0] || phrase[0] as u32 == message[0] as u32 + 32
            &&& message.skip(1) == phrase.skip(1)
        }),
{
    let inner = phrase + stops;
    assert(!text::is_white(inner[0]));
    assert(!text::is_white(inner.last())) by {
        if stops.len() > 0 {
            assert(inner.last() == stops[stops.len() - 1]);
        } else {
            assert(inner =~= phrase);
        }
    }
    text::trimming_leaves_what_is_inside(before, inner, after);
    let big = seq![run::upper(inner[0])] + inner.drop_first();
    assert(run::capitalized(inner) == big);
    let head = seq![run::upper(phrase[0])] + phrase.skip(1);
    assert(big =~= head + stops);
    assert(head.last() == (if phrase.len() == 1 {
        run::upper(phrase[0])
    } else {
        phrase.last()
    }));
    stops_come_off(head, stops);
    assert(head.skip(1) =~= phrase.skip(1));
}

/// The hotspots of a scan are put out in their order, each with its rank, path, score, band and
/// reason.
pub proof fn hotspots_are_put_out(
    run: ScanRunSummaryView,
    summary: ScanSummaryView,
    version: Seq<char>,
    epoch_secs: u64,
    k: int,
)
    requires
        0 <= k < summary.hotspots.len(),
    ensures
        ({
            let out = run::output_of(run, Some(summary), version, epoch_secs);
            let (shown, own) = (out.top_hotspots[k], summary.hotspots[k]);
            &&& out.top_hotspots.len() == summary.hotspots.len()
            &&& shown.rank == own.rank
            &&& shown.path == own.relative_path
            &&& shown.score == own.risk_10
            &&& shown.band == own.risk_band
            &&& shown.reason == own.fact
        }),
{
}

/// What is put out of a scan is what it says in short.
pub proof fn scans_are_put_out(
    run: ScanRunSummaryView,
    summary: Option<ScanSummaryView>,
    version: Seq<char>,
    epoch_secs: u64,
)
    ensures
        ({
            let out = run::output_of(run, summary, version, epoch_secs);
            &&& out.hotpath_version == version
            &&& out.risk == run.risk
            &&& out.assessment.is_reliable == run.assessment_reliable
            &&& out.assessment.scoring_confidence == run.scoring_confidence
            &&& out.scan.scan_type == run.scan.scan_type
            &&& out.scan.duration_ms == run.scan.duration_ms
            &&& out.scan.files_detected == run.scan.files_detected
            &&& out.scan.files_analyzed == run.scan.files_analyzed
            &&& summary is None ==> out.top_hotspots.len() == 0 && out.limitations.len() == 0
        }),
{
}

} // verus!
