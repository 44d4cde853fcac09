use hotpath::hotspots::{
    load_hotspots_report, render_hotspots_table, tags_for_row, HotspotFactRow, HotspotRow,
    HotspotScoreRow, HotspotTerm, HotspotTermRow, HotspotsError, HotspotsIndex, HotspotsReport,
};
use hotpath::measure::Real;

fn number(value: f64) -> Real {
    Real {
        bits: value.to_bits(),
        text: format!("{value:.3}"),
    }
}

#[test]
fn renders_hotspots_table_with_requested_columns() {
    let report = HotspotsReport {
        include_tests: false,
        rows: vec![HotspotRow {
            rank: 1,
            score: number(0.875),
            relative_path: "internal/service/risky.go".to_owned(),
            is_test: false,
            drivers: vec!["High total churn".to_owned()],
            tags: vec!["high churn".to_owned(), "complexity pressure".to_owned()],
            confidence: "high".to_owned(),
        }],
    };

    let default = render_hotspots_table(&report, false);
    assert!(default.starts_with("Production Go hotspots"));
    assert!(default.contains("git confidence: high"));
    assert!(!default.contains("0.875"));
    assert!(default.contains("internal/service/risky.go"));
    assert!(!default.contains("[high]"));
    assert!(default.contains("high churn · complexity pressure"));
    assert!(!default.contains("High total churn"));

    let verbose = render_hotspots_table(&report, true);
    assert!(verbose.contains("0.875"));
    assert!(verbose.contains("[high]"));
    assert!(verbose.contains("High total churn"));
}

#[test]
fn empty_report_renders_empty_state() {
    let rendered = render_hotspots_table(
        &HotspotsReport {
            include_tests: false,
            rows: Vec::new(),
        },
        false,
    );

    assert_eq!(rendered, "No scored production Go file hotspots found.");
}

#[test]
fn tags_follow_tui_signal_priority() {
    let row = HotspotScoreRow {
        score: number(0.8),
        relative_path: "service_test.go".to_owned(),
        is_generated: false,
        is_vendor: false,
        is_test: true,
    };
    let tags = tags_for_row(
        &row,
        &vec![
            HotspotTerm {
                name: "complexity_pressure".to_owned(),
                normalized_value: Some(number(1.0)),
            },
            HotspotTerm {
                name: "churn".to_owned(),
                normalized_value: Some(number(0.7)),
            },
            HotspotTerm {
                name: "size".to_owned(),
                normalized_value: Some(number(0.3)),
            },
        ],
    );

    assert_eq!(tags, vec!["high churn", "complexity pressure", "test file"]);
}

fn index() -> HotspotsIndex {
    HotspotsIndex {
        has_state: true,
        completed: Some("1".to_owned()),
        confidence: Some("bounded".to_owned()),
        scores: Vec::new(),
        facts: Vec::new(),
        terms: Vec::new(),
    }
}

fn score_row(path: &str, score: f64, is_test: bool) -> HotspotScoreRow {
    HotspotScoreRow {
        score: number(score),
        relative_path: path.to_owned(),
        is_generated: false,
        is_vendor: false,
        is_test,
    }
}

fn fact_row(path: &str, message: &str) -> HotspotFactRow {
    HotspotFactRow {
        relative_path: path.to_owned(),
        message: message.to_owned(),
    }
}

fn term_row(path: &str, name: &str, value: f64) -> HotspotTermRow {
    HotspotTermRow {
        relative_path: path.to_owned(),
        term: HotspotTerm {
            name: name.to_owned(),
            normalized_value: Some(number(value)),
        },
    }
}

#[test]
fn loader_requires_complete_index() {
    let mut incomplete = index();
    incomplete.completed = Some("0".to_owned());

    let error = load_hotspots_report(incomplete, false, None)
        .expect_err("incomplete index should fail");

    assert!(matches!(error, HotspotsError::IncompleteIndex));

    let mut unknown = index();
    unknown.has_state = false;
    assert!(matches!(
        load_hotspots_report(unknown, false, None),
        Err(HotspotsError::IncompleteIndex)
    ));
}

#[test]
fn loader_sorts_by_score_then_path_and_limits_rows() {
    let mut index = index();
    index.scores = vec![
        score_row("z.go", 0.8, false),
        score_row("a.go", 0.8, false),
        score_row("m.go", 0.9, false),
        score_row("test_test.go", 1.0, true),
    ];
    index.facts = vec![fact_row("a.go", "A fact"), fact_row("m.go", "M fact")];
    index.terms = vec![
        term_row("a.go", "complexity_pressure", 1.0),
        term_row("m.go", "churn", 1.0),
    ];

    let report = load_hotspots_report(index, false, Some(2)).expect("hotspots should load");

    assert_eq!(report.rows.len(), 2);
    assert_eq!(report.rows[0].relative_path, "m.go");
    assert_eq!(report.rows[1].relative_path, "a.go");
    assert_eq!(report.rows[0].rank, 1);
    assert_eq!(report.rows[1].rank, 2);
    assert!(!report.rows[0].is_test);
    assert_eq!(report.rows[0].confidence, "bounded");
    assert_eq!(report.rows[0].drivers, vec!["M fact"]);
    assert_eq!(report.rows[0].tags, vec!["high churn"]);
}

#[test]
fn loader_excludes_test_files_by_default() {
    let mut index = index();
    index.scores = vec![
        score_row("prod.go", 0.9, false),
        score_row("prod_test.go", 0.8, true),
    ];

    let report = load_hotspots_report(index, false, None).expect("hotspots should load");

    assert_eq!(report.rows.len(), 1);
    assert_eq!(report.rows[0].relative_path, "prod.go");
    assert!(!report.rows[0].is_test);
}

#[test]
fn loader_includes_test_files_when_requested() {
    let mut index = index();
    index.scores = vec![
        score_row("prod.go", 0.9, false),
        score_row("prod_test.go", 0.8, true),
    ];

    let report = load_hotspots_report(index, true, None).expect("hotspots should load");

    assert!(report.include_tests);
    assert_eq!(report.rows.len(), 2);
    assert_eq!(report.rows[0].relative_path, "prod.go");
    assert!(!report.rows[0].is_test);
    assert_eq!(report.rows[1].relative_path, "prod_test.go");
    assert!(report.rows[1].is_test);
    assert!(report.rows[1].tags.contains(&"test file".to_owned()));
}

#[test]
fn a_term_is_strong_from_its_threshold_on() {
    let row = score_row("a.go", 0.5, false);
    let terms = |value: f64| {
        vec![HotspotTerm {
            name: "churn".to_owned(),
            normalized_value: Some(number(value)),
        }]
    };

    assert_eq!(tags_for_row(&row, &terms(0.60)), vec!["high churn"]);
    assert!(tags_for_row(&row, &terms(0.59)).is_empty());
    assert!(tags_for_row(&row, &terms(-1.0)).is_empty());
    assert_eq!(tags_for_row(&row, &terms(f64::NAN)), vec!["high churn"]);
}

#[test]
fn no_more_than_four_drivers_are_named() {
    let mut index = index();
    index.confidence = None;
    index.scores = vec![score_row("a.go", 0.5, false)];
    index.facts = (0..6)
        .map(|number| fact_row("a.go", &format!("fact {number}")))
        .collect();

    let report = load_hotspots_report(index, false, None).expect("hotspots should load");

    assert_eq!(report.rows[0].drivers, vec!["fact 0", "fact 1", "fact 2", "fact 3"]);
    assert_eq!(report.rows[0].confidence, "none");
    let text = render_hotspots_table(&report, true);
    assert_eq!(
        text,
        "Production Go hotspots\n\n 1  0.500  a.go  [none]\n    fact 0\n    fact 1\n    fact 2\n    fact 3"
    );
}

#[test]
fn hotspots_errors_name_their_cause() {
    assert!(HotspotsError::QueryDatabase("locked".to_owned())
        .message()
        .contains("locked"));
    assert!(HotspotsError::OpenDatabase {
        path: "index.sqlite".to_owned(),
        message: "denied".to_owned(),
    }
    .message()
    .contains("denied"));
    assert!(!HotspotsError::NoIndex.message().is_empty());
    assert!(!HotspotsError::IncompleteIndex.message().is_empty());
}
