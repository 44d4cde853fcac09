use hotpath::measure::Real;
use hotpath::scoring::{
    explain_path, hotspots, render_key_contributors, render_size_summary,
    select_hotspots_for_output, FormulaVersion, HotspotScore, NormalizedMetric,
    NormalizedScoreMetrics, RankedHotspotScore, RawScoreMetrics, ScoreLimitation, WeightedTerm,
};
use hotpath::{ContentKind, FileRecord, HotspotsOptions, DEFAULT_HOTSPOTS_LIMIT};

fn percentage(value: f64) -> Real {
    Real {
        bits: value.to_bits(),
        text: format!("{:.2}", value * 100.0),
    }
}

fn number(value: f64) -> Real {
    Real {
        bits: value.to_bits(),
        text: format!("{value:.3}"),
    }
}

fn raw_score_metrics_with_size(
    line_count: Option<u64>,
    byte_size: Option<u64>,
) -> RawScoreMetrics {
    RawScoreMetrics {
        path: "src/lib.rs".to_owned(),
        byte_size,
        line_count,
        commits_per_file: Some(1),
        total_churn_lines: Some(2),
        recent_churn_lines: Some(3),
        author_count: Some(1),
        dominant_owner_share: Some(percentage(1.0)),
        co_changed_file_count: Some(0),
    }
}

#[test]
fn render_size_summary_reports_unavailable_when_line_count_and_byte_size_are_missing() {
    let raw_metrics = raw_score_metrics_with_size(None, None);

    assert_eq!(render_size_summary(&raw_metrics), "size unavailable");
}

#[test]
fn sizes_are_told_in_lines_before_bytes() {
    assert_eq!(
        render_size_summary(&raw_score_metrics_with_size(Some(3), Some(9))),
        "3 lines"
    );
    assert_eq!(
        render_size_summary(&raw_score_metrics_with_size(None, Some(9))),
        "9 bytes"
    );
}

fn term(name: &str, metric: NormalizedMetric, contribution: f64) -> WeightedTerm {
    WeightedTerm {
        name: name.to_owned(),
        metric,
        weight: number(0.5),
        normalized_input: Some(number(contribution * 2.0)),
        weighted_contribution: number(contribution),
    }
}

fn ranked(rank: u64, path: &str) -> RankedHotspotScore {
    let mut raw_metrics = raw_score_metrics_with_size(Some(12), Some(100));
    raw_metrics.path = path.to_owned();
    RankedHotspotScore {
        rank,
        score: HotspotScore {
            path: path.to_owned(),
            value: number(0.75),
            formula_version: FormulaVersion {
                id: "hotspot.v1".to_owned(),
                major: 1,
                minor: 2,
            },
            raw_metrics,
            normalized_metrics: NormalizedScoreMetrics {
                size: Some(number(0.1)),
                churn: None,
                recent_churn: Some(number(0.2)),
                ownership: Some(number(1.0)),
                coupling: Some(number(0.0)),
            },
            weighted_terms: vec![
                term("size", NormalizedMetric::Size, 0.05),
                term("churn", NormalizedMetric::Churn, 0.0),
                term("coupling", NormalizedMetric::Coupling, 0.3),
                term("ownership", NormalizedMetric::Ownership, 0.3),
                term("recent_churn", NormalizedMetric::RecentChurn, 0.1),
            ],
            limitations: Vec::new(),
        },
    }
}

fn file(path: &str, is_generated: bool, is_vendor: bool) -> FileRecord {
    FileRecord {
        path: path.to_owned(),
        byte_size: Some(4),
        extension: None,
        language: None,
        line_count: None,
        is_vendor,
        is_generated,
        content: ContentKind::Text,
        is_symlink: false,
        classification: "implemented",
        warnings: Vec::new(),
    }
}

#[test]
fn the_largest_contributions_are_named() {
    let mut scored = ranked(1, "a.rs");
    assert_eq!(
        render_key_contributors(&scored.score),
        "coupling 0.300, ownership 0.300, recent_churn 0.100"
    );

    scored.score.weighted_terms = vec![
        term("none", NormalizedMetric::Churn, 0.0),
        term("negative", NormalizedMetric::Churn, -0.1),
    ];
    assert_eq!(render_key_contributors(&scored.score), "none observed");
}

#[test]
fn filters_and_limits_select_the_listed_files() {
    let scores = vec![
        ranked(1, "dist/a.js"),
        ranked(2, "vendor/b.rs"),
        ranked(3, "src/c.rs"),
        ranked(4, "src/d.rs"),
    ];
    let files = vec![
        file("dist/a.js", true, false),
        file("vendor/b.rs", false, true),
        file("src/c.rs", true, true),
        file("src/c.rs", false, false),
    ];
    let options = |limit, exclude_generated, exclude_vendor| HotspotsOptions {
        limit,
        exclude_generated,
        exclude_vendor,
    };
    let paths = |options| {
        select_hotspots_for_output(&scores, &files, options)
            .iter()
            .map(|score| score.score.path.clone())
            .collect::<Vec<_>>()
    };

    assert_eq!(HotspotsOptions::default().limit, DEFAULT_HOTSPOTS_LIMIT);
    assert_eq!(
        paths(HotspotsOptions::default()),
        vec!["dist/a.js", "vendor/b.rs", "src/c.rs", "src/d.rs"]
    );
    assert_eq!(paths(options(2, false, false)), vec!["dist/a.js", "vendor/b.rs"]);
    assert_eq!(paths(options(1, true, true)), vec!["src/c.rs"]);
    assert_eq!(
        paths(options(9, true, false)),
        vec!["vendor/b.rs", "src/c.rs", "src/d.rs"]
    );
    assert!(paths(options(0, false, false)).is_empty());
}

#[test]
fn listed_files_are_told_with_their_reasons() {
    let mut limited = ranked(1, "src/c.rs");
    limited.score.limitations = vec![
        ScoreLimitation {
            message: "first".to_owned(),
        },
        ScoreLimitation {
            message: "second".to_owned(),
        },
        ScoreLimitation {
            message: "third".to_owned(),
        },
    ];
    let scores = vec![limited];
    let text = hotspots(
        "hotspot.v1",
        &scores,
        &Vec::new(),
        HotspotsOptions {
            limit: 3,
            exclude_generated: true,
            exclude_vendor: false,
        },
        90,
    );

    assert_eq!(
        text,
        "Hotpath hotspots\nscope: current scanned files plus local Git history reachable from HEAD\nformula: hotspot.v1\nfiles ranked: 1 (showing 1)\noutput filters: limit 3, exclude generated files\n\nrank  score  path\n   1  0.750  src/c.rs\n      key contributors: coupling 0.300, ownership 0.300, recent_churn 0.100\n      why: 1 commits, 2 churn lines, 3 recent churn lines, 1 authors, 0 co-changed files, 12 lines\n      limitations: first; second\n\ncalculation notes\n  - Scores are advisory signals for investigation, not proof that a file is defective.\n  - Inputs come from scanner facts and local Git history reachable from HEAD only.\n  - Recent churn uses the 90-day window before the HEAD committer timestamp.\n  - Missing normalized inputs contribute 0.0; formula weights are not redistributed.\n  - Output filters affect displayed rows only; persisted hotspot scores keep the full ranked set and original ranks."
    );
    let empty = hotspots("hotspot.v1", &Vec::new(), &Vec::new(), HotspotsOptions::default(), 90);
    assert!(empty.contains("\n\nrank  score  path\n  none\n\ncalculation notes"));
    assert!(!empty.contains("output filters"));
}

#[test]
fn a_score_is_explained_term_by_term() {
    let scores = vec![ranked(1, "src/c.rs")];
    let text = explain_path(&scores, "src/c.rs", 90).expect("path should be scored");

    assert!(text.starts_with("Hotpath score explanation\npath: src/c.rs\n"));
    assert!(text.contains("formula version: hotspot.v1 (major 1, minor 2)\nfinal score: 0.750"));
    assert!(text.contains("  dominant owner share: 100.00%\n"));
    assert!(text.contains("\n  churn: unavailable\n  recent_churn: 0.200\n"));
    assert!(text.contains("\n  coupling: weight 0.500 * coupling 0.600 = 0.300\n"));
    assert!(text.contains("\n  - Uses local Git history only; advisory score.\n"));
    assert_eq!(explain_path(&scores, "src/other.rs", 90), None);
}
