use hotpath::context::render_context;
use hotpath::{
    estimate_context, parse_budget_tokens, BudgetParseError, ContentKind, ContextBudgetStatus,
    ContextOptions, ContextReport, ContextSkippedReason, ContextSkippedRow, FileRecord,
    FileWarning, CONTEXT_SCHEMA_VERSION,
};

fn text(path: &str, byte_size: Option<u64>) -> FileRecord {
    record(path, byte_size, ContentKind::Text)
}

fn record(path: &str, byte_size: Option<u64>, content: ContentKind) -> FileRecord {
    FileRecord {
        path: path.to_owned(),
        byte_size,
        extension: None,
        language: None,
        line_count: None,
        is_vendor: false,
        is_generated: false,
        content,
        is_symlink: false,
        classification: "test",
        warnings: Vec::new(),
    }
}

fn group_paths(report: &ContextReport) -> Vec<&str> {
    report
        .groups
        .iter()
        .map(|group| group.path.as_str())
        .collect()
}

#[test]
fn estimator_uses_ceiling_byte_size_divided_by_four() {
    let report = estimate_context(
        &[
            text("one.txt", Some(1)),
            text("four.txt", Some(4)),
            text("five.txt", Some(5)),
        ],
        ContextOptions::default(),
    );

    assert_eq!(report.schema_version, CONTEXT_SCHEMA_VERSION);
    assert_eq!(report.summary.included_files, 3);
    assert_eq!(report.summary.included_bytes, 10);
    assert_eq!(report.summary.estimated_tokens, 4);
    assert_eq!(report.groups[0].path, ".");
    assert_eq!(report.groups[0].estimated_tokens, 4);
}

#[test]
fn groups_by_first_path_component_and_sorts_deterministically() {
    let report = estimate_context(
        &[
            text("zeta/file.rs", Some(8)),
            text("alpha/file.rs", Some(8)),
            text("src/compiler/lib.rs", Some(12)),
            text("README.md", Some(4)),
        ],
        ContextOptions::default(),
    );

    assert_eq!(group_paths(&report), vec!["src", "alpha", "zeta", "."]);
    assert_eq!(report.groups[0].estimated_tokens, 3);
    assert_eq!(report.groups[1].estimated_tokens, 2);
    assert_eq!(report.groups[2].estimated_tokens, 2);
    assert_eq!(report.groups[3].estimated_tokens, 1);
}

#[test]
fn generated_and_vendor_files_are_included_by_default() {
    let mut generated = text("dist/client.js", Some(8));
    generated.is_generated = true;
    let mut vendor = text("vendor/lib.rs", Some(12));
    vendor.is_vendor = true;

    let report = estimate_context(&[generated, vendor], ContextOptions::default());

    assert_eq!(report.summary.included_files, 2);
    assert_eq!(report.summary.skipped_files, 0);
    assert_eq!(report.summary.estimated_tokens, 5);
    assert_eq!(group_paths(&report), vec!["vendor", "dist"]);
}

#[test]
fn generated_and_vendor_filters_skip_matching_files() {
    let mut generated = text("dist/client.js", Some(8));
    generated.is_generated = true;
    let mut vendor = text("vendor/lib.rs", Some(12));
    vendor.is_vendor = true;
    let options = ContextOptions {
        exclude_generated: true,
        exclude_vendor: true,
        budget_tokens: None,
    };

    let report = estimate_context(&[generated, vendor, text("src/lib.rs", Some(4))], options);

    assert_eq!(report.summary.included_files, 1);
    assert_eq!(report.summary.skipped_files, 2);
    assert_eq!(report.summary.filtered_generated_files, 1);
    assert_eq!(report.summary.filtered_vendor_files, 1);
    assert_eq!(report.summary.estimated_tokens, 1);
    assert_eq!(
        report.skipped,
        vec![
            ContextSkippedRow {
                path: "dist/client.js".to_owned(),
                reason: ContextSkippedReason::ExcludedGenerated,
            },
            ContextSkippedRow {
                path: "vendor/lib.rs".to_owned(),
                reason: ContextSkippedReason::ExcludedVendor,
            },
        ]
    );
}

#[test]
fn skips_binary_unknown_unreadable_and_missing_byte_size_files() {
    let mut unreadable = text("blocked.txt", Some(16));
    unreadable.warnings.push(FileWarning {
        code: "read_failed",
        message: "denied".to_owned(),
    });

    let report = estimate_context(
        &[
            record("assets/logo.bin", Some(10), ContentKind::Binary),
            text("missing.txt", None),
            record("unknown.dat", None, ContentKind::Unknown),
            unreadable,
            text("src/lib.rs", Some(4)),
        ],
        ContextOptions::default(),
    );

    assert_eq!(report.summary.included_files, 1);
    assert_eq!(report.summary.skipped_files, 4);
    assert_eq!(report.summary.estimated_tokens, 1);
    assert_eq!(
        report.skipped,
        vec![
            ContextSkippedRow {
                path: "assets/logo.bin".to_owned(),
                reason: ContextSkippedReason::Binary,
            },
            ContextSkippedRow {
                path: "blocked.txt".to_owned(),
                reason: ContextSkippedReason::Unreadable,
            },
            ContextSkippedRow {
                path: "missing.txt".to_owned(),
                reason: ContextSkippedReason::MissingByteSize,
            },
            ContextSkippedRow {
                path: "unknown.dat".to_owned(),
                reason: ContextSkippedReason::UnknownContent,
            },
        ]
    );
}

#[test]
fn reports_budget_status_when_budget_is_provided() {
    let report = estimate_context(
        &[text("src/lib.rs", Some(12))],
        ContextOptions {
            exclude_generated: false,
            exclude_vendor: false,
            budget_tokens: Some(2),
        },
    );

    assert_eq!(
        report.budget,
        Some(ContextBudgetStatus {
            budget_tokens: 2,
            estimated_tokens: 3,
            remaining_tokens: None,
            over_budget_tokens: Some(1),
        })
    );
}

#[test]
fn parses_plain_and_suffixed_positive_integer_budgets() {
    assert_eq!(parse_budget_tokens("1"), Ok(1));
    assert_eq!(parse_budget_tokens("200k"), Ok(200_000));
    assert_eq!(parse_budget_tokens("3K"), Ok(3_000));
    assert_eq!(parse_budget_tokens("2m"), Ok(2_000_000));
    assert_eq!(parse_budget_tokens("4M"), Ok(4_000_000));
}

#[test]
fn rejects_invalid_budgets() {
    assert_eq!(parse_budget_tokens(""), Err(BudgetParseError::Empty));
    assert_eq!(parse_budget_tokens("0"), Err(BudgetParseError::Zero));
    assert_eq!(parse_budget_tokens("-1"), Err(BudgetParseError::Negative));
    assert_eq!(parse_budget_tokens("1.5k"), Err(BudgetParseError::Decimal));
    assert_eq!(
        parse_budget_tokens("10g"),
        Err(BudgetParseError::UnknownSuffix)
    );
    assert_eq!(
        parse_budget_tokens("abc"),
        Err(BudgetParseError::UnknownSuffix)
    );
    assert_eq!(
        parse_budget_tokens("k"),
        Err(BudgetParseError::InvalidDigits)
    );
    assert_eq!(
        parse_budget_tokens("18446744073709551616"),
        Err(BudgetParseError::Overflow)
    );
    assert_eq!(
        parse_budget_tokens("18446744073709552k"),
        Err(BudgetParseError::Overflow)
    );
}

fn context_text(path: &str, byte_size: u64) -> FileRecord {
    record(path, Some(byte_size), ContentKind::Text)
}

#[test]
fn context_rendering_reports_summary_filters_budget_and_groups() {
    let mut generated = context_text("dist/client.js", 8);
    generated.is_generated = true;
    let mut vendor = context_text("vendor/lib.rs", 12);
    vendor.is_vendor = true;
    let report = estimate_context(
        &[context_text("src/lib.rs", 12), generated, vendor],
        ContextOptions {
            exclude_generated: true,
            exclude_vendor: true,
            budget_tokens: Some(5),
        },
    );

    assert_eq!(
        render_context(&report),
        "Hotpath context budget\nscope: current scanned UTF-8 text files from the working directory\nformula: estimated tokens = ceil(byte_size / 4) for UTF-8 text files\n\ntotal estimated tokens  3\nincluded files          1\nskipped files           2\nincluded bytes          12\noutput filters: exclude generated files, exclude vendor files\nbudget: within budget by 2 tokens (budget 5, estimated 3)\n\ngroups\n  group path  estimated tokens  bytes  files\n  src  3  12  1\n\ncalculation notes\n  - Offline deterministic approximation; no source text leaves the local machine.\n  - Tokenizer-specific counts vary by model and language, so treat this as planning guidance."
    );
}

#[test]
fn context_rendering_reports_over_budget_and_empty_groups() {
    let report = estimate_context(
        &[record("image.png", Some(10), ContentKind::Binary)],
        ContextOptions {
            exclude_generated: false,
            exclude_vendor: false,
            budget_tokens: Some(1),
        },
    );

    assert!(render_context(&report).contains(
        "budget: within budget by 1 tokens (budget 1, estimated 0)\n\ngroups\n  group path  estimated tokens  bytes  files\n  none"
    ));

    let report = estimate_context(
        &[context_text("src/lib.rs", 8)],
        ContextOptions {
            exclude_generated: false,
            exclude_vendor: false,
            budget_tokens: Some(1),
        },
    );

    assert!(render_context(&report)
        .contains("budget: over budget by 1 tokens (budget 1, estimated 2)"));
}
