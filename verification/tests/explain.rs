use std::path::{Component, Path};

use hotpath::explain::diagnostics::{diagnostics_from_items, parse_diagnostics_json};
use hotpath::explain::render::render_explain_text;
use hotpath::explain::rows::{load_file_facts, FileFactsColumns};
use hotpath::explain::{
    explain_report_from_rows, git_limitations, i64_to_u64, load_score, normalize_index_relative_path,
    owner_rank, score_unavailable_reasons, CanonicalPaths, CochangePartner, ExplainError,
    ExplainFact, ExplainFile, ExplainLimitation, ExplainOwner, ExplainReport, ExplainRows,
    ExplainScore, ExplainTerm, GitContext, RawMetrics, SourceCoupling, SourceEdge,
    SourceReference,
};
use hotpath::measure::Real;
use hotpath::paths::native::{lexically_normalize, NativePath, NormalPath, PathPart};
use hotpath::table::TextMap;

fn native(text: &str) -> NativePath {
    let path = Path::new(text);
    NativePath {
        text: text.to_owned(),
        prefix: Vec::new(),
        rooted: path.has_root(),
        absolute: path.is_absolute(),
        parts: path
            .components()
            .filter_map(|component| match component {
                Component::ParentDir => Some(PathPart::Parent),
                Component::Normal(name) => Some(PathPart::Name(name.as_encoded_bytes().to_vec())),
                _ => None,
            })
            .collect(),
    }
}

/// A path on a drive, taken apart as a platform with drives does.
fn on_drive(drive: u8, names: &[&str]) -> NormalPath {
    NormalPath {
        prefix: vec![drive],
        rooted: true,
        parts: names.iter().map(|name| name.as_bytes().to_vec()).collect(),
    }
}

fn given_on_drive(drive: u8, text: &str, names: &[&str]) -> NativePath {
    NativePath {
        text: text.to_owned(),
        prefix: vec![drive],
        rooted: true,
        absolute: true,
        parts: names
            .iter()
            .map(|name| match *name {
                ".." => PathPart::Parent,
                name => PathPart::Name(name.as_bytes().to_vec()),
            })
            .collect(),
    }
}

fn number(value: f64) -> Real {
    Real {
        bits: value.to_bits(),
        text: format!("{value:.3}"),
    }
}

fn as_given() -> CanonicalPaths {
    CanonicalPaths {
        index_root: None,
        current_dir: None,
        input_path: None,
    }
}

#[test]
fn normalizes_relative_path_from_current_directory_to_index_root() {
    let root = native("C:/repo");
    let current = native("C:/repo/internal");

    let normalized = normalize_index_relative_path(
        &root,
        &current,
        &native("../cmd/app/main.go"),
        &as_given(),
    )
    .expect("path should normalize");

    assert_eq!(normalized, "cmd/app/main.go");
}

#[test]
fn rejects_paths_outside_index_root() {
    let error = normalize_index_relative_path(
        &native("C:/repo"),
        &native("C:/repo"),
        &native("../other/file.go"),
        &as_given(),
    )
    .expect_err("outside path should fail");

    assert!(error.message().contains("outside indexed repository"));
}

#[test]
fn parses_diagnostics_json_in_order() {
    let diagnostics = parse_diagnostics_json(
        r#"[{"code":"parse_error","message":"bad syntax"},{"code":"truncated","message":"window"}]"#,
    );

    assert_eq!(diagnostics[0].code, "parse_error");
    assert_eq!(diagnostics[1].message, "window");
}

#[test]
fn invalid_diagnostics_json_is_reported() {
    let diagnostics = parse_diagnostics_json("not json");

    assert_eq!(diagnostics[0].code, "invalid_diagnostics_json");
}

#[test]
fn renders_text_with_required_sections() {
    let mut metadata = TextMap::new();
    metadata.insert("git_confidence", "bounded".to_owned());
    let report = ExplainReport {
        file: ExplainFile {
            relative_path: "src/risky.go".to_owned(),
            absolute_path: "C:/repo/src/risky.go".to_owned(),
            active_scan_id: 1,
            language_id: Some("go".to_owned()),
            content_kind: "text".to_owned(),
            extension: Some("go".to_owned()),
            is_generated: false,
            is_vendor: false,
            is_test: false,
            parser_status: "parsed".to_owned(),
            parser_recognition_attempts: 1,
        },
        score_unavailable_reasons: Vec::new(),
        score: Some(ExplainScore {
            formula_id: "hotpath.score.go.v1".to_owned(),
            rank: 1,
            score: number(0.75),
            risk_10: number(7.5),
            risk_band: "high".to_owned(),
        }),
        terms: vec![ExplainTerm {
            name: "churn".to_owned(),
            raw_value: Some(number(2000.0)),
            normalized_value: Some(number(1.0)),
            weight: number(0.18),
            contribution: number(0.18),
        }],
        raw_metrics: RawMetrics {
            byte_size: Some(100),
            mtime_ms: Some(1),
            line_count: Some(10),
            symbol_count: 1,
            function_count: 1,
            method_count: 0,
            type_count: 0,
            import_count: 1,
            complexity_pressure: Some(2),
            max_function_complexity_pressure: Some(2),
            commits_per_file: 2,
            total_added_lines: 10,
            total_deleted_lines: 3,
            total_churn_lines: 13,
            recent_added_lines: 8,
            recent_deleted_lines: 2,
            recent_churn_lines: 10,
            author_count: 1,
            first_touch_timestamp: Some(1),
            last_touch_timestamp: Some(2),
            file_age_days: Some(1),
            owner_count: Some(1),
            dominant_owner: Some("Alice <a@example.invalid>".to_owned()),
            dominant_owner_share: Some(number(1.0)),
            co_changed_file_count: 1,
            source_coupling_pressure_in: Some(2),
            source_coupling_pressure_out: Some(1),
        },
        facts: vec![ExplainFact {
            kind: "summary".to_owned(),
            message: "summary fact".to_owned(),
        }],
        limitations: vec![ExplainLimitation {
            code: "approx".to_owned(),
            message: "approximate".to_owned(),
        }],
        parser_diagnostics: vec![ExplainLimitation {
            code: "parse_error".to_owned(),
            message: "syntax".to_owned(),
        }],
        owners: vec![ExplainOwner {
            rank: 1,
            author: "Alice <a@example.invalid>".to_owned(),
            ownership_score: number(10.0),
            ownership_share: number(1.0),
            touch_count: 2,
        }],
        git_context: GitContext {
            metadata,
            limitations: Vec::new(),
            cochanges: vec![CochangePartner {
                path: "src/peer.go".to_owned(),
                co_change_count: 1,
            }],
        },
        source_coupling: SourceCoupling {
            package_path: Some("src".to_owned()),
            inbound_count: Some(2),
            outbound_count: Some(1),
            outbound_references: vec![SourceReference {
                reference_index: 0,
                reference_kind: "import".to_owned(),
                raw_target: "example.test/pkg".to_owned(),
                resolved_package: Some("pkg".to_owned()),
                is_resolved: true,
            }],
            outbound_edges: vec![SourceEdge {
                source_path: "src/risky.go".to_owned(),
                source_package: "src".to_owned(),
                target_package: "pkg".to_owned(),
                reference_kind: "import".to_owned(),
            }],
            inbound_sources: Vec::new(),
        },
    };

    let rendered = render_explain_text(&report);

    for section in [
        "File",
        "Score",
        "Terms",
        "Raw Metrics",
        "Facts",
        "Limitations",
        "Parser Diagnostics",
        "Owners",
        "Git Context",
        "Source Coupling",
    ] {
        assert!(rendered.contains(section), "missing {section}");
    }
    assert!(rendered.contains("churn raw 2000.000 normalized 1.000 weight 0.180"));
    assert!(rendered.contains("cochange src/peer.go count 1"));
}

#[test]
fn diagnostics_need_a_code_and_a_message() {
    let diagnostics = parse_diagnostics_json(
        r#"[{"code":"a"},{"message":"b"},7,{"code":1,"message":"m"},{"message":"n","code":"c"}]"#,
    );

    assert_eq!(diagnostics.len(), 1);
    assert_eq!(diagnostics[0].code, "c");
    assert_eq!(diagnostics[0].message, "n");
    assert!(parse_diagnostics_json("[]").is_empty());
    assert_eq!(diagnostics_from_items(&None)[0].code, "invalid_diagnostics_json");
}

#[test]
fn counts_are_never_negative() {
    assert_eq!(i64_to_u64(-1), 0);
    assert_eq!(i64_to_u64(7), 7);
    assert_eq!(owner_rank(0), 1);
    assert_eq!(owner_rank(i64::MAX), 9_223_372_036_854_775_808);
}

fn columns() -> FileFactsColumns {
    FileFactsColumns {
        relative_path: "src/risky.go".to_owned(),
        absolute_path: "/repo/src/risky.go".to_owned(),
        active_scan_id: 3,
        language_id: Some("rust".to_owned()),
        content_kind: "text".to_owned(),
        extension: Some("go".to_owned()),
        is_generated: 1,
        is_vendor: 0,
        is_test: 2,
        parser_status: "parsed".to_owned(),
        parser_recognition_attempts: -4,
        byte_size: Some(100),
        mtime_ms: Some(-1),
        line_count: None,
        symbol_count: 1,
        function_count: 1,
        method_count: 0,
        type_count: 0,
        import_count: 1,
        complexity_pressure: None,
        max_function_complexity_pressure: None,
        commits_per_file: 2,
        total_added_lines: 10,
        total_deleted_lines: 3,
        total_churn_lines: 13,
        recent_added_lines: 8,
        recent_deleted_lines: 2,
        recent_churn_lines: 10,
        author_count: 1,
        first_touch_timestamp: Some(1),
        last_touch_timestamp: Some(2),
        file_age_days: Some(1),
        owner_count: Some(1),
        dominant_owner: None,
        dominant_owner_share: None,
        co_changed_file_count: 1,
        source_coupling_pressure_in: Some(2),
        source_coupling_pressure_out: Some(1),
        diagnostics: "not json".to_owned(),
    }
}

#[test]
fn rows_become_a_report() {
    let facts = load_file_facts(columns());
    assert!(facts.file.is_generated && !facts.file.is_vendor && facts.file.is_test);
    assert_eq!(facts.file.parser_recognition_attempts, 0);
    assert_eq!(facts.raw_metrics.mtime_ms, Some(0));

    let mut metadata = TextMap::new();
    metadata.insert("git_confidence", "bounded".to_owned());
    metadata.insert("other", "x".to_owned());
    let rows = |file| ExplainRows {
        file,
        score: None,
        terms: Vec::new(),
        facts: Vec::new(),
        limitations: Vec::new(),
        owners: Vec::new(),
        metadata: {
            let mut copy = TextMap::new();
            for (key, value) in metadata.keys.iter().zip(metadata.values.iter()) {
                copy.insert(key, value.clone());
            }
            copy
        },
        cochanges: Vec::new(),
        package_path: None,
        outbound_references: Vec::new(),
        outbound_edges: Vec::new(),
        inbound_sources: Vec::new(),
    };
    let reasons = score_unavailable_reasons(&facts.file, &facts.raw_metrics);
    let report = explain_report_from_rows("src/risky.go", rows(Some(facts)))
        .expect("file should be indexed");

    assert_eq!(report.score_unavailable_reasons, reasons);
    assert_eq!(reasons[0].code, "unsupported_language");
    assert_eq!(report.parser_diagnostics[0].code, "invalid_diagnostics_json");
    assert_eq!(report.git_context.metadata.keys, vec!["git_confidence"]);
    assert_eq!(report.git_context.limitations, git_limitations(&metadata));
    assert!(render_explain_text(&report).contains("\n  unavailable\n  reason unsupported_language: "));
    assert_eq!(
        explain_report_from_rows("src/other.go", rows(None)).expect_err("file is not indexed"),
        ExplainError::FileNotIndexed {
            relative_path: "src/other.go".to_owned()
        }
    );
}

#[test]
fn canonical_paths_take_precedence() {
    let canonical = CanonicalPaths {
        index_root: Some(lexically_normalize(&native("/real/repo"))),
        current_dir: Some(lexically_normalize(&native("/real/repo/src"))),
        input_path: None,
    };

    assert_eq!(
        normalize_index_relative_path(
            &native("/link/repo"),
            &native("/link/repo/src"),
            &native("a.go"),
            &canonical
        ),
        Ok("src/a.go".to_owned())
    );
    assert!(matches!(
        normalize_index_relative_path(
            &native("/link/repo"),
            &native("/link/repo"),
            &native("/real/repo"),
            &canonical
        ),
        Err(ExplainError::OutsideIndexRoot { .. })
    ));
}

#[test]
fn indexed_files_may_lie_on_a_drive() {
    let root = || given_on_drive(b'C', r"C:\repo", &["repo"]);
    let canonical = CanonicalPaths {
        index_root: Some(on_drive(b'C', &["repo"])),
        current_dir: Some(on_drive(b'C', &["repo", "internal"])),
        input_path: None,
    };
    let normalize =
        |path: &NativePath| normalize_index_relative_path(&root(), &root(), path, &canonical);

    assert_eq!(normalize(&native("../cmd/main.go")), Ok("cmd/main.go".to_owned()));
    assert_eq!(
        normalize(&given_on_drive(b'C', r"C:\repo\a.go", &["repo", "a.go"])),
        Ok("a.go".to_owned())
    );
    assert_eq!(
        normalize(&given_on_drive(b'D', r"D:\repo\a.go", &["repo", "a.go"])),
        Err(ExplainError::OutsideIndexRoot {
            path: r"D:\repo\a.go".to_owned(),
            index_root: r"C:\repo".to_owned(),
        })
    );
    let mut faulty = native("a.go");
    faulty.parts = vec![PathPart::Name(vec![b'a', 0xff])];
    assert_eq!(normalize(&faulty), Ok("internal/a\u{fffd}".to_owned()));
}

#[test]
fn the_formula_decides_the_score() {
    let score = |formula_id: &str, rank| ExplainScore {
        formula_id: formula_id.to_owned(),
        rank,
        score: number(0.5),
        risk_10: number(5.0),
        risk_band: "Medium".to_owned(),
    };
    let rows = || vec![score("v2", 2), score("v1", 1), score("v3", 3)];

    assert_eq!(load_score(rows(), None), Some(score("v1", 1)));
    assert_eq!(load_score(rows(), Some("v3")), Some(score("v3", 3)));
    assert_eq!(load_score(rows(), Some("v4")), None);
    assert_eq!(load_score(Vec::new(), None), None);
}

#[test]
fn everything_lies_below_an_empty_root() {
    let nothing = CanonicalPaths {
        index_root: None,
        current_dir: None,
        input_path: None,
    };

    for (root, path, expected) in [
        (".", "/a/b.go", "a/b.go"),
        ("", "a/../b.go", "b.go"),
        ("x/..", "./c.go", "c.go"),
    ] {
        assert_eq!(
            normalize_index_relative_path(&native(root), &native(root), &native(path), &nothing),
            Ok(expected.to_owned())
        );
    }
}

#[test]
fn a_report_without_a_score_has_nothing_of_one() {
    let limitation = || ExplainLimitation {
        code: "code".to_owned(),
        message: "message".to_owned(),
    };
    let partner = |path: &str, co_change_count| CochangePartner {
        path: path.to_owned(),
        co_change_count,
    };
    let rows = |score| ExplainRows {
        file: Some(load_file_facts(columns())),
        score,
        terms: vec![ExplainTerm {
            name: "churn".to_owned(),
            raw_value: None,
            normalized_value: None,
            weight: number(0.2),
            contribution: number(0.1),
        }],
        facts: vec![ExplainFact {
            kind: "kind".to_owned(),
            message: "message".to_owned(),
        }],
        limitations: vec![limitation()],
        owners: Vec::new(),
        metadata: TextMap::new(),
        cochanges: (0..12)
            .map(|index| partner(&format!("f{index:02}"), index / 2))
            .rev()
            .collect(),
        package_path: None,
        outbound_references: Vec::new(),
        outbound_edges: Vec::new(),
        inbound_sources: Vec::new(),
    };
    let score = ExplainScore {
        formula_id: "formula".to_owned(),
        rank: 1,
        score: number(0.5),
        risk_10: number(5.0),
        risk_band: "medium".to_owned(),
    };

    let unscored = explain_report_from_rows("src/risky.go", rows(None)).expect("indexed");
    assert!(!unscored.score_unavailable_reasons.is_empty());
    assert!(unscored.terms.is_empty());
    assert!(unscored.facts.is_empty());
    assert!(unscored.limitations.is_empty());
    let scored = explain_report_from_rows("src/risky.go", rows(Some(score))).expect("indexed");
    assert!(scored.score_unavailable_reasons.is_empty());
    assert_eq!(scored.terms.len(), 1);
    assert_eq!(scored.facts.len(), 1);
    assert_eq!(scored.limitations, vec![limitation()]);
    let partners: Vec<(u64, &str)> = scored
        .git_context
        .cochanges
        .iter()
        .map(|partner| (partner.co_change_count, partner.path.as_str()))
        .collect();
    assert_eq!(
        partners,
        vec![
            (5, "f10"),
            (5, "f11"),
            (4, "f08"),
            (4, "f09"),
            (3, "f06"),
            (3, "f07"),
            (2, "f04"),
            (2, "f05"),
            (1, "f02"),
            (1, "f03"),
        ]
    );
}
