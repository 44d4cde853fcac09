use hotpath::complexity::{render_summary, report_from_parse};
use hotpath::{
    ContentKind, ParseFileRecord, ParseFileStatus, ParseImportRecord, ParseReport,
    ParseSymbolRecord,
};

fn parse_import(path: &str, target: &str, kind: &str) -> ParseImportRecord {
    ParseImportRecord {
        path: path.to_owned(),
        target: target.to_owned(),
        kind: kind.to_owned(),
        start_line: 1,
        end_line: 1,
    }
}

fn parse_report(symbols: Vec<ParseSymbolRecord>) -> ParseReport {
    parse_report_with_imports(symbols, Vec::new())
}

fn parse_report_with_imports(
    symbols: Vec<ParseSymbolRecord>,
    imports: Vec<ParseImportRecord>,
) -> ParseReport {
    parse_report_with_files(
        vec![ParseFileRecord {
            path: "src/lib.rs".to_owned(),
            language: Some("Rust"),
            content: ContentKind::Text,
            status: ParseFileStatus::Parsed,
            reason: None,
            symbol_count: symbols.len() as u64,
            import_count: imports
                .iter()
                .filter(|import| import.path == "src/lib.rs")
                .count() as u64,
        }],
        symbols,
        imports,
    )
}

fn parse_report_with_files(
    files: Vec<ParseFileRecord>,
    symbols: Vec<ParseSymbolRecord>,
    imports: Vec<ParseImportRecord>,
) -> ParseReport {
    ParseReport {
        warnings: Vec::new(),
        files,
        symbols,
        imports,
    }
}

fn file(path: &str, symbol_count: u64, import_count: u64) -> ParseFileRecord {
    ParseFileRecord {
        path: path.to_owned(),
        language: Some("Rust"),
        content: ContentKind::Text,
        status: ParseFileStatus::Parsed,
        reason: None,
        symbol_count,
        import_count,
    }
}

fn symbol(
    name: &str,
    kind: &str,
    start_line: u64,
    end_line: u64,
    cyclomatic_complexity: Option<u64>,
    max_control_flow_nesting: Option<u64>,
) -> ParseSymbolRecord {
    ParseSymbolRecord {
        path: "src/lib.rs".to_owned(),
        name: name.to_owned(),
        kind: kind.to_owned(),
        start_line,
        end_line,
        signature: None,
        nesting_depth: 0,
        parent: None,
        cyclomatic_complexity,
        max_control_flow_nesting,
    }
}

#[test]
fn report_derives_lengths_large_symbols_and_summary() {
    let report = report_from_parse(&parse_report(vec![
        symbol("Widget", "struct", 1, 90, None, None),
        symbol("small", "function", 4, 8, Some(2), Some(1)),
        symbol("large", "method", 10, 89, Some(7), Some(3)),
    ]));

    assert_eq!(report.summary.total_files, 1);
    assert_eq!(report.summary.parsed_files, 1);
    assert_eq!(report.summary.symbol_count, 3);
    assert_eq!(report.summary.function_method_count, 2);
    assert_eq!(report.summary.large_symbol_count, 2);
    assert_eq!(report.summary.max_cyclomatic_complexity, 7);
    assert_eq!(report.summary.max_nesting_depth, 3);
    assert_eq!(report.summary.dependency_edge_count, 0);
    assert_eq!(report.summary.max_fan_in, 0);
    assert_eq!(report.summary.max_fan_out, 0);
    assert_eq!(report.files[0].function_method_count, 2);
    assert_eq!(report.files[0].large_symbol_count, 2);
    assert_eq!(report.files[0].max_cyclomatic_complexity, Some(7));
    assert_eq!(report.files[0].max_nesting_depth, Some(3));
    assert_eq!(report.files[0].fan_in, 0);
    assert_eq!(report.files[0].fan_out, 0);
    assert_eq!(report.symbols[0].length_lines, 90);
    assert_eq!(report.symbols[0].function_length_lines, None);
    assert_eq!(report.symbols[1].length_lines, 5);
    assert_eq!(report.symbols[1].function_length_lines, Some(5));
    assert!(report.symbols[2].is_large_symbol);
}

#[test]
fn report_derives_file_fan_metrics_from_resolved_dependencies() {
    let report = report_from_parse(&parse_report_with_files(
        vec![file("src/lib.rs", 0, 1), file("src/child.rs", 0, 0)],
        Vec::new(),
        vec![parse_import("src/lib.rs", "child", "mod")],
    ));

    assert_eq!(report.summary.dependency_edge_count, 1);
    assert_eq!(report.summary.max_fan_in, 1);
    assert_eq!(report.summary.max_fan_out, 1);
    assert_eq!(report.files[0].path, "src/lib.rs");
    assert_eq!(report.files[0].fan_in, 0);
    assert_eq!(report.files[0].fan_out, 1);
    assert_eq!(report.files[1].path, "src/child.rs");
    assert_eq!(report.files[1].fan_in, 1);
    assert_eq!(report.files[1].fan_out, 0);
}

#[test]
fn summary_ranks_functions_by_complexity_then_stable_keys() {
    let report = report_from_parse(&parse_report(vec![
        symbol("later", "function", 20, 22, Some(4), Some(1)),
        symbol("first", "function", 10, 11, Some(4), Some(2)),
        symbol("not_ranked", "struct", 1, 1, None, None),
    ]));

    let summary = render_summary(&report);

    assert!(summary.contains("functions/methods  2"));
    assert!(
        summary.find("first").expect("first should be ranked")
            < summary.find("later").expect("later should be ranked")
    );
    assert!(!summary.contains("not_ranked"));
}
