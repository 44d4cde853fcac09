use hotpath::calendar::{date_of_day, format_utc_iso8601, Date};
use hotpath::measure::Real;
use hotpath::run::{
    assessment_reason, build_scan_run_summary, derive_git_history, derive_scan_type,
    map_primary_driver, normalize_json_limitation_message, BandCounts, GitStatus, HotspotSummary,
    LimitationSummary, PipelineState, ProjectSummary, ScanJsonOutput, ScanSummary,
};

fn number(value: f64) -> Real {
    Real {
        bits: value.to_bits(),
        text: format!("{value:.1}"),
    }
}

fn state(confidence: Option<&str>, index_action: Option<&str>) -> PipelineState {
    PipelineState {
        git_status: GitStatus {
            confidence: confidence.map(|text| text.to_owned()),
            index_action: index_action.map(|text| text.to_owned()),
        },
        git_skipped: false,
        elapsed_ms: 12,
        total_files: None,
        enumerated_files: 3,
        analyzed_files: 2,
        git_commits_processed: 7,
        total_git_commits: Some(9),
    }
}

fn summary(confidence: &str, dimension: Option<&str>) -> ScanSummary {
    ScanSummary {
        project: Some(ProjectSummary {
            confidence: confidence.to_owned(),
            risk_10: number(6.5),
            risk_band: "high".to_owned(),
            dominant_dimension: dimension.map(|text| text.to_owned()),
        }),
        hotspots: vec![HotspotSummary {
            rank: 1,
            relative_path: "a.go".to_owned(),
            risk_10: number(8.0),
            risk_band: "high".to_owned(),
            fact: Some("High total churn".to_owned()),
        }],
        limitations: vec![LimitationSummary {
            code: "bounded".to_owned(),
            message: "  history is bounded.  ".to_owned(),
        }],
    }
}

fn bands() -> BandCounts {
    BandCounts {
        extreme: 0,
        high: 1,
        medium: 2,
        low: 3,
    }
}

#[test]
fn moments_are_written_in_utc() {
    assert_eq!(format_utc_iso8601(0), "1970-01-01T00:00:00Z");
    assert_eq!(format_utc_iso8601(951_782_399), "2000-02-28T23:59:59Z");
    assert_eq!(format_utc_iso8601(951_782_400), "2000-02-29T00:00:00Z");
    assert_eq!(format_utc_iso8601(1_700_000_000), "2023-11-14T22:13:20Z");
    assert_eq!(format_utc_iso8601(4_107_542_400), "2100-03-01T00:00:00Z");
    assert_eq!(format_utc_iso8601(253_402_300_800), "10000-01-01T00:00:00Z");
    assert!(format_utc_iso8601(u64::MAX).ends_with("Z"));
}

#[test]
fn days_follow_one_another() {
    let mut previous = Date {
        year: 1969,
        month: 12,
        day: 31,
    };
    for day in 0..200_000 {
        let date = date_of_day(day);
        let same_month = date.year == previous.year
            && date.month == previous.month
            && date.day == previous.day + 1;
        let next_month = date.day == 1
            && ((date.year == previous.year && date.month == previous.month + 1)
                || (date.year == previous.year + 1 && date.month == 1 && previous.month == 12));
        assert!(same_month || next_month, "{previous:?} then {date:?}");
        previous = date;
    }
    assert_eq!(
        previous,
        Date {
            year: 2517,
            month: 7,
            day: 31,
        }
    );
}

#[test]
fn limitations_are_written_as_headings() {
    assert_eq!(
        normalize_json_limitation_message("  history is bounded.  "),
        "History is bounded"
    );
    assert_eq!(normalize_json_limitation_message("3 files!?"), "3 Files");
    assert_eq!(normalize_json_limitation_message("\u{e9}tat."), "\u{e9}Tat");
    assert_eq!(normalize_json_limitation_message(" ... "), "");
    assert_eq!(normalize_json_limitation_message("Go."), "Go");
}

#[test]
fn the_history_follows_from_the_state() {
    assert_eq!(derive_git_history(&state(Some("full"), None)), "full");
    assert_eq!(derive_git_history(&state(Some("bounded"), None)), "bounded");
    assert_eq!(derive_git_history(&state(Some("up_to_date"), None)), "incremental");
    assert_eq!(derive_git_history(&state(Some("incremental"), None)), "incremental");
    assert_eq!(
        derive_git_history(&state(Some("first_parent_only"), None)),
        "first_parent_only"
    );
    assert_eq!(derive_git_history(&state(Some("not_git"), Some("reused"))), "incremental");
    assert_eq!(derive_git_history(&state(Some("not_git"), None)), "absent");
    assert_eq!(derive_git_history(&state(None, None)), "absent");
    assert_eq!(derive_scan_type(&state(None, Some("reused"))), "incremental");
    assert_eq!(
        derive_scan_type(&state(None, Some("incrementally_updated"))),
        "incremental"
    );
    assert_eq!(derive_scan_type(&state(None, Some("rebuilt"))), "full");
}

#[test]
fn drivers_have_a_label() {
    let label = |dimension: &str| {
        map_primary_driver(Some(dimension)).map(|driver| (driver.id, driver.label))
    };

    assert_eq!(label("churn"), Some(("churn".to_owned(), "Churn".to_owned())));
    assert_eq!(
        label("recent_churn"),
        Some(("churn".to_owned(), "Recent churn".to_owned()))
    );
    assert_eq!(
        label("complexity_pressure"),
        Some(("complexity".to_owned(), "Complexity".to_owned()))
    );
    assert_eq!(
        label("cochange_pressure"),
        Some(("cochange".to_owned(), "Co-change".to_owned()))
    );
    assert_eq!(label("size"), None);
    assert_eq!(map_primary_driver(None), None);
}

#[test]
fn reliability_needs_scores_and_a_history() {
    let reason = |confidence: &str, history: Option<&str>| {
        let run = build_scan_run_summary(
            &state(history, None),
            Some(&summary(confidence, None)),
            bands(),
        );
        (run.assessment_reliable, assessment_reason(&run))
    };

    assert_eq!(
        reason("high", Some("full")),
        (true, "High scoring coverage and repository context are available.")
    );
    assert_eq!(
        reason("medium", Some("full")),
        (true, "Medium scoring coverage and repository context are available.")
    );
    assert_eq!(reason("none", Some("full")), (false, "No production Go files were scored."));
    assert_eq!(reason("low", Some("full")), (false, "Scoring coverage is low."));
    assert_eq!(
        reason("high", None),
        (false, "High scoring coverage, but repository context is unavailable.")
    );
    assert_eq!(
        reason("medium", None),
        (false, "Medium scoring coverage, but repository context is unavailable.")
    );
    assert_eq!(
        reason("other", None),
        (false, "Assessment reliability is limited by incomplete scoring context.")
    );
}

#[test]
fn a_run_is_put_out_in_full() {
    let scan = summary("high", Some("churn"));
    let run = build_scan_run_summary(&state(Some("full"), None), Some(&scan), bands());
    let output = ScanJsonOutput::build(run, Some(&scan), "1.2.3", 86_400);

    assert_eq!(output.schema_version, 1);
    assert_eq!(output.hotpath_version, "1.2.3");
    assert_eq!(output.scanned_at, "1970-01-02T00:00:00Z");
    assert!(output.assessment.is_reliable);
    assert_eq!(output.risk.score, Some(number(6.5)));
    assert_eq!(output.risk.band, "high");
    assert_eq!(output.risk.files_by_band, bands());
    assert_eq!(output.scan.files_detected, 3);
    assert_eq!(output.scan.files_analyzed, 2);
    assert_eq!(output.scan.duration_ms, 12);
    assert_eq!(output.top_hotspots[0].path, "a.go");
    assert_eq!(output.limitations[0].message, "History is bounded");
}

#[test]
fn a_run_without_scores_has_no_risk() {
    let unscored = summary("none", None);
    let run = build_scan_run_summary(&state(None, None), Some(&unscored), bands());
    let empty = build_scan_run_summary(&state(None, None), None, bands());

    assert_eq!(run.risk.score, None);
    assert_eq!(run.risk.band, "unavailable");
    assert_eq!(empty.scoring_confidence, "none");
    assert_eq!(empty.risk.primary_driver, None);
    let output = ScanJsonOutput::build(empty, None, "1", 0);
    assert!(output.top_hotspots.is_empty());
    assert!(output.limitations.is_empty());
}
