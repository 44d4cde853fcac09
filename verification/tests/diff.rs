use hotpath::diff::committed::{
    analyze_committed_tree_diff, CommitLookup, CurrentHead, RangeLookup, TreeStep, TreesLookup,
};
use hotpath::diff::risk::{diff_risk_report, render_diff_risk_text};
use hotpath::diff::{
    changed_files_from_diff, parse_diff_range, DeltaContent, DeltaFile, DeltaLines, DeltaPath,
    DeltaStatus, DiffArchitectureStatus, DiffChangeKind, DiffChangedFile, DiffContextSide,
    DiffContextSkip, DiffContextSkipReason, DiffError, DiffRangeParseError, DiffRangeSpec,
    DiffReport, FileDelta, DIFF_SCHEMA_VERSION,
};
use hotpath::measure::Real;
use hotpath::scoring::{
    FormulaVersion, HotspotScore, NormalizedScoreMetrics, RankedHotspotScore, RawScoreMetrics,
};
use hotpath::{diff_risk, pr_risk, ContentKind, FileRecord};

#[test]
fn parses_triple_dot_range() {
    let range = parse_diff_range(" main ... feature ").expect("range should parse");

    assert_eq!(
        range,
        DiffRangeSpec {
            requested: " main ... feature ".to_owned(),
            base_ref: "main".to_owned(),
            head_ref: "feature".to_owned(),
        }
    );
}

#[test]
fn rejects_invalid_ranges() {
    assert_eq!(
        parse_diff_range("main").expect_err("missing separator should fail"),
        DiffRangeParseError::MissingTripleDot
    );
    assert_eq!(
        parse_diff_range("main..feature").expect_err("two-dot range should fail"),
        DiffRangeParseError::TwoDotRange
    );
    assert_eq!(
        parse_diff_range("main....feature").expect_err("four-dot range should fail"),
        DiffRangeParseError::TwoDotRange
    );
    assert_eq!(
        parse_diff_range("main...feature...other")
            .expect_err("multiple triple-dot separators should fail"),
        DiffRangeParseError::MultipleTripleDot
    );
    assert_eq!(
        parse_diff_range("...feature").expect_err("empty base should fail"),
        DiffRangeParseError::EmptyBase
    );
    assert_eq!(
        parse_diff_range("main...").expect_err("empty head should fail"),
        DiffRangeParseError::EmptyHead
    );
}

fn side(path: &str, bytes: &[u8]) -> DeltaFile {
    DeltaFile {
        present: true,
        path: DeltaPath::Text(path.to_owned()),
        content: if bytes.contains(&0) {
            DeltaContent::Binary
        } else {
            DeltaContent::Bytes(bytes.to_vec())
        },
    }
}

fn absent(path: &str) -> DeltaFile {
    DeltaFile {
        present: false,
        path: DeltaPath::Text(path.to_owned()),
        content: DeltaContent::Bytes(Vec::new()),
    }
}

fn delta(status: DeltaStatus, old: DeltaFile, new: DeltaFile) -> FileDelta {
    FileDelta {
        status,
        old,
        new,
        lines: DeltaLines::Counted {
            added: 1,
            deleted: 0,
        },
    }
}

fn added(path: &str, bytes: &[u8]) -> FileDelta {
    delta(DeltaStatus::Added, absent(path), side(path, bytes))
}

fn commit(id: &str) -> CommitLookup {
    CommitLookup::Commit { id: id.to_owned() }
}

fn lookup(base: &str, head: &str, current: &str, merge_base: &str, deltas: Vec<FileDelta>) -> RangeLookup {
    RangeLookup::Found {
        shallow: false,
        bare: false,
        current: CurrentHead::Commit {
            id: current.to_owned(),
        },
        base: commit(base),
        head: commit(head),
        trees: TreesLookup::Diffed {
            merge_base: merge_base.to_owned(),
            deltas,
        },
    }
}

fn changed_file<'a>(report: &'a DiffReport, path: &str) -> &'a DiffChangedFile {
    report
        .changed_files
        .iter()
        .find(|file| file.path == path)
        .unwrap_or_else(|| panic!("expected changed file {path}"))
}

fn sized_text(byte_len: usize) -> String {
    "a".repeat(byte_len)
}

fn paths(report: &DiffReport) -> Vec<&str> {
    report
        .changed_files
        .iter()
        .map(|file| file.path.as_str())
        .collect()
}

#[test]
fn changed_files_are_sorted_by_stable_repository_relative_path() {
    let deltas = vec![
        delta(
            DeltaStatus::Modified,
            side("zeta.txt", b"base\n"),
            side("zeta.txt", b"base\nchanged\n"),
        ),
        added("alpha.txt", b"alpha\n"),
        added("dir/beta.txt", b"beta\n"),
    ];

    let report =
        analyze_committed_tree_diff("/repo", "b1...h1", lookup("b1", "h1", "h1", "b1", deltas))
            .expect("diff should analyze");

    assert_eq!(paths(&report), vec!["alpha.txt", "dir/beta.txt", "zeta.txt"]);
    assert_eq!(report.schema_version, DIFF_SCHEMA_VERSION);
    assert_eq!(report.architecture, DiffArchitectureStatus::NotEvaluated);
}

#[test]
fn diff_uses_merge_base_instead_of_base_tip() {
    let deltas = vec![added("feature.txt", b"feature\n")];

    let report = analyze_committed_tree_diff(
        "/repo",
        "master...HEAD",
        lookup("b1", "f1", "f1", "r1", deltas),
    )
    .expect("diff should analyze from merge-base to current head");

    assert_eq!(report.range.head_commit_id, "f1");
    assert_eq!(report.range.merge_base_commit_id, "r1");
    assert_eq!(paths(&report), vec!["feature.txt"]);
}

#[test]
fn reports_context_delta_for_add_modify_delete_and_rename() {
    let deltas = vec![
        added("add.txt", sized_text(5).as_bytes()),
        delta(
            DeltaStatus::Deleted,
            side("delete.txt", sized_text(8).as_bytes()),
            absent("delete.txt"),
        ),
        delta(
            DeltaStatus::Modified,
            side("modify.txt", sized_text(8).as_bytes()),
            side("modify.txt", sized_text(9).as_bytes()),
        ),
        delta(
            DeltaStatus::Renamed,
            side("rename-old.txt", sized_text(100).as_bytes()),
            side("rename-new.txt", sized_text(104).as_bytes()),
        ),
    ];
    let report =
        analyze_committed_tree_diff("/repo", "b1...h1", lookup("b1", "h1", "h1", "b1", deltas))
            .expect("diff should analyze");

    let add = changed_file(&report, "add.txt");
    assert_eq!(add.change_kind, DiffChangeKind::Added);
    assert_eq!(add.old_path, None);
    assert_eq!(add.new_path.as_deref(), Some("add.txt"));
    assert_eq!(add.context_token_delta, 2);

    let delete = changed_file(&report, "delete.txt");
    assert_eq!(delete.change_kind, DiffChangeKind::Deleted);
    assert_eq!(delete.old_path.as_deref(), Some("delete.txt"));
    assert_eq!(delete.new_path, None);
    assert_eq!(delete.context_token_delta, -2);

    let modify = changed_file(&report, "modify.txt");
    assert_eq!(modify.change_kind, DiffChangeKind::Modified);
    assert_eq!(modify.context_token_delta, 1);

    let rename = changed_file(&report, "rename-new.txt");
    assert_eq!(rename.change_kind, DiffChangeKind::Renamed);
    assert_eq!(rename.old_path.as_deref(), Some("rename-old.txt"));
    assert_eq!(rename.new_path.as_deref(), Some("rename-new.txt"));
    assert_eq!(rename.context_token_delta, 1);

    assert_eq!(report.summary.changed_files, 4);
    assert_eq!(report.summary.context_token_delta, 2);
    assert_eq!(report.range.base_ref, "b1");
    assert_eq!(report.range.head_ref, "h1");
    assert_eq!(report.range.base_commit_id, "b1");
    assert_eq!(report.range.head_commit_id, "h1");
}

#[test]
fn rejects_diff_when_range_head_is_not_current_head() {
    let error = analyze_committed_tree_diff(
        "/repo",
        "master...feature",
        lookup("r1", "f1", "r1", "r1", Vec::new()),
    )
    .expect_err("non-current range head should be rejected");

    assert!(matches!(
        error,
        DiffError::ResolvedHeadNotCurrentHead {
            requested_head,
            ..
        } if requested_head == "feature"
    ));
}

#[test]
fn records_binary_and_non_utf8_context_skip_reasons() {
    let deltas = vec![
        added("binary.bin", &[0, 1, 2, 0, 3]),
        added("invalid.txt", &[0xC3, 0x28]),
    ];
    let report =
        analyze_committed_tree_diff("/repo", "b1...h1", lookup("b1", "h1", "h1", "b1", deltas))
            .expect("diff should analyze");

    let binary = changed_file(&report, "binary.bin");
    assert_eq!(binary.context_token_delta, 0);
    assert_eq!(
        binary.skipped_context,
        vec![DiffContextSkip {
            side: DiffContextSide::New,
            reason: DiffContextSkipReason::Binary,
        }]
    );

    let invalid = changed_file(&report, "invalid.txt");
    assert_eq!(invalid.context_token_delta, 0);
    assert_eq!(
        invalid.skipped_context,
        vec![DiffContextSkip {
            side: DiffContextSide::New,
            reason: DiffContextSkipReason::InvalidUtf8,
        }]
    );
}

#[test]
fn failures_of_git_are_told_apart() {
    let denied = || "denied".to_owned();
    let found = |shallow, bare, current, base, head, trees| RangeLookup::Found {
        shallow,
        bare,
        current,
        base,
        head,
        trees,
    };
    let here = || CurrentHead::Commit {
        id: "h1".to_owned(),
    };
    let no_trees = || TreesLookup::Failed {
        step: TreeStep::MergeBase,
        message: denied(),
    };
    let analyze = |range: &str, lookup| {
        analyze_committed_tree_diff("/repo", range, lookup).expect_err("diff should fail")
    };

    assert_eq!(
        analyze("main", lookup("b", "h1", "h1", "b", Vec::new())),
        DiffError::InvalidRange(DiffRangeParseError::MissingTripleDot)
    );
    assert_eq!(
        analyze(
            "b...h",
            RangeLookup::Failed {
                missing: false,
                no_repository: true,
                message: denied()
            }
        ),
        DiffError::NotRepository {
            path: "/repo".to_owned(),
            message: denied()
        }
    );
    assert_eq!(
        analyze(
            "b...h",
            RangeLookup::Failed {
                missing: false,
                no_repository: false,
                message: denied()
            }
        ),
        DiffError::OpenRepository {
            path: "/repo".to_owned(),
            message: denied()
        }
    );
    assert_eq!(
        analyze("b...h", found(true, true, here(), commit("b"), commit("h1"), no_trees())),
        DiffError::ShallowRepository {
            path: "/repo".to_owned()
        }
    );
    assert_eq!(
        analyze("b...h", found(false, true, here(), commit("b"), commit("h1"), no_trees())),
        DiffError::BareRepository {
            path: "/repo".to_owned()
        }
    );
    assert_eq!(
        analyze(
            "b...h",
            found(
                false,
                false,
                CurrentHead::ReadFailed {
                    unborn: true,
                    missing: false,
                    message: denied()
                },
                commit("b"),
                commit("h1"),
                no_trees()
            )
        ),
        DiffError::MissingHead {
            path: "/repo".to_owned()
        }
    );
    assert_eq!(
        analyze(
            "b...h",
            found(
                false,
                false,
                CurrentHead::NotCommit { message: denied() },
                commit("b"),
                commit("h1"),
                no_trees()
            )
        ),
        DiffError::HeadNotCommit {
            path: "/repo".to_owned(),
            message: denied()
        }
    );
    assert_eq!(
        analyze(
            "b...h",
            found(
                false,
                false,
                here(),
                CommitLookup::Failed { message: denied() },
                commit("h1"),
                no_trees()
            )
        ),
        DiffError::Git {
            context: "resolving diff base ref",
            message: denied()
        }
    );
    assert_eq!(
        analyze("b...h", found(false, false, here(), commit("b"), commit("h1"), no_trees())),
        DiffError::Git {
            context: "computing the merge base",
            message: denied()
        }
    );
    assert!(matches!(
        changed_files_from_diff(
            &vec![delta(
                DeltaStatus::Added,
                absent("x"),
                DeltaFile {
                    present: true,
                    path: DeltaPath::NotUtf8,
                    content: DeltaContent::Binary,
                }
            )],
            "h1"
        ),
        Err(DiffError::UnsupportedPathEncoding { commit_id }) if commit_id == "h1"
    ));
}

#[test]
fn ranges_of_two_names_are_parsed() {
    let range = pr_risk("main", "feature").expect("range should parse");

    assert_eq!(range.requested, "main...feature");
    assert_eq!(range.base_ref, "main");
    assert_eq!(range.head_ref, "feature");
    assert_eq!(pr_risk("", "feature"), Err(DiffRangeParseError::EmptyBase));
}

fn file(path: &str) -> FileRecord {
    FileRecord {
        path: path.to_owned(),
        byte_size: Some(4),
        extension: None,
        language: None,
        line_count: None,
        is_vendor: false,
        is_generated: false,
        content: ContentKind::Text,
        is_symlink: false,
        classification: "implemented",
        warnings: Vec::new(),
    }
}

fn ranked(rank: u64, path: &str) -> RankedHotspotScore {
    let value = 1.0 - rank as f64 / 100.0;
    RankedHotspotScore {
        rank,
        score: HotspotScore {
            path: path.to_owned(),
            value: Real {
                bits: value.to_bits(),
                text: format!("{value:.3}"),
            },
            formula_version: FormulaVersion {
                id: "hotspot.v1".to_owned(),
                major: 1,
                minor: 0,
            },
            raw_metrics: RawScoreMetrics {
                path: path.to_owned(),
                byte_size: None,
                line_count: None,
                commits_per_file: None,
                total_churn_lines: None,
                recent_churn_lines: None,
                author_count: None,
                dominant_owner_share: None,
                co_changed_file_count: None,
            },
            normalized_metrics: NormalizedScoreMetrics {
                size: None,
                churn: None,
                recent_churn: None,
                ownership: None,
                coupling: None,
            },
            weighted_terms: Vec::new(),
            limitations: Vec::new(),
        },
    }
}

#[test]
fn touched_hotspots_are_changed_current_and_among_the_first() {
    let deltas = vec![
        added("add.txt", sized_text(5).as_bytes()),
        delta(
            DeltaStatus::Deleted,
            side("delete.txt", sized_text(8).as_bytes()),
            absent("delete.txt"),
        ),
        added("late.txt", b""),
    ];
    let report =
        analyze_committed_tree_diff("/repo", "b1...h1", lookup("b1", "h1", "h1", "b1", deltas))
            .expect("diff should analyze");
    let files = vec![file("add.txt"), file("late.txt"), file("other.txt")];
    let mut scores = vec![ranked(1, "other.txt"), ranked(2, "delete.txt"), ranked(3, "add.txt")];
    for rank in 4..=10 {
        scores.push(ranked(rank, "other.txt"));
    }
    scores.push(ranked(11, "late.txt"));

    let risk = diff_risk_report(report.clone(), &files, &scores);
    assert_eq!(risk.summary.touched_hotspot_count, 1);
    assert_eq!(risk.summary.touched_hotspots[0].path, "add.txt");
    assert_eq!(risk.summary.touched_hotspots[0].rank, 3);

    let text = diff_risk(report, &files, &scores);
    assert_eq!(text, render_diff_risk_text(&risk));
    assert_eq!(
        text,
        "Hotpath diff risk\nrange: b1...h1\nChanged files: 3\nTouched hotspots: 1\nArchitecture violations: not evaluated\nContext growth: +0 tokens\n\ntouched hotspots\n  #3  0.970  add.txt\n\nchanged files\n  added  add.txt  +1 -0  +2 tokens\n  deleted  delete.txt  +1 -0  -2 tokens\n  added  late.txt  +1 -0  +0 tokens"
    );
}
