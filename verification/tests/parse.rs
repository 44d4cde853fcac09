use hotpath::parse::extract::{extract_from_outcome, extract_source};
use hotpath::parse::report::{
    language_to_read, parse_file_from_scan, parse_progress, parse_scan_report, report_from_scan,
    SourceRead,
};
use hotpath::parse::{
    FileExtraction, ParseFileReason, ParseFileStatus, ParseSymbolRecord,
};
use hotpath::scan::file_extension;
use hotpath::syntax::{parse_tree, ParseOutcome, SupportedLanguage};
use hotpath::{parse_summary, ContentKind, FileRecord, ScanReport};

fn extraction(language: SupportedLanguage, source: &str) -> FileExtraction {
    extract_source("src/sample", language, source)
}

fn symbol<'a>(extraction: &'a FileExtraction, name: &str, kind: &str) -> &'a ParseSymbolRecord {
    extraction
        .symbols
        .iter()
        .find(|symbol| symbol.name == name && symbol.kind == kind)
        .unwrap_or_else(|| panic!("expected {kind} symbol named {name}"))
}

fn import_targets(extraction: &FileExtraction) -> Vec<&str> {
    extraction
        .imports
        .iter()
        .map(|import| import.target.as_str())
        .collect()
}

#[test]
fn rust_extraction_records_symbols_imports_and_complexity() {
    let source = r#"
use std::{fmt, io};
mod child;

pub struct Widget {
    value: i32,
}

trait Draw {
    fn draw(&self);
}

impl Widget {
    pub fn render(&self) {
        if self.value > 0 {
            for item in 0..self.value {
                match item {
                    0 => {}
                    _ => {}
                }
            }
        }
    }
}

fn free() {}
"#;

    let extraction = extraction(SupportedLanguage::Rust, source);

    assert!(extraction.parsed);
    assert_eq!(import_targets(&extraction), vec!["std::{fmt, io}", "child"]);
    assert_eq!(symbol(&extraction, "child", "module").start_line, 3);
    assert_eq!(symbol(&extraction, "Widget", "struct").start_line, 5);
    assert_eq!(symbol(&extraction, "Draw", "trait").start_line, 9);
    assert_eq!(symbol(&extraction, "free", "function").start_line, 26);

    let render = symbol(&extraction, "render", "method");
    assert_eq!(render.parent.as_deref(), Some("impl Widget"));
    assert_eq!(render.nesting_depth, 1);
    assert_eq!(render.cyclomatic_complexity, Some(4));
    assert_eq!(render.max_control_flow_nesting, Some(3));
}

#[test]
fn rust_inline_modules_are_symbols_not_dependency_imports() {
    let source = r#"
mod inline {
    pub fn child() {}
}

mod external;
"#;

    let extraction = extraction(SupportedLanguage::Rust, source);

    assert!(extraction.parsed);
    assert_eq!(import_targets(&extraction), vec!["external"]);
    assert_eq!(symbol(&extraction, "inline", "module").start_line, 2);
    assert_eq!(
        symbol(&extraction, "child", "function").parent.as_deref(),
        Some("inline")
    );
}

#[test]
fn go_extraction_records_package_types_methods_and_imports() {
    let source = r#"
package api

import (
    "fmt"
    alias "net/http"
)

type Server struct {
    Name string
}

type Runner interface {
    Run() error
}

func New() *Server {
    return &Server{}
}

func (s *Server) Serve() {
    if s.Name != "" {
        for range []int{1} {
        }
    }
}
"#;

    let extraction = extraction(SupportedLanguage::Go, source);

    assert!(extraction.parsed);
    assert_eq!(import_targets(&extraction), vec!["fmt", "net/http"]);
    assert_eq!(symbol(&extraction, "api", "package").start_line, 2);
    assert_eq!(symbol(&extraction, "Server", "struct").start_line, 9);
    assert_eq!(symbol(&extraction, "Runner", "interface").start_line, 13);
    assert_eq!(symbol(&extraction, "New", "function").start_line, 17);

    let serve = symbol(&extraction, "Serve", "method");
    assert_eq!(serve.parent.as_deref(), Some("Server"));
    assert_eq!(serve.cyclomatic_complexity, Some(3));
    assert_eq!(serve.max_control_flow_nesting, Some(2));
}

#[test]
fn go_extraction_does_not_walk_deep_generated_literal_trees() {
    let depth = 2_000;
    let source = format!(
        "package p\nvar x = {}0{}\nfunc done() {{}}\n",
        "[]any{".repeat(depth),
        "}".repeat(depth)
    );

    let extraction = extraction(SupportedLanguage::Go, &source);

    assert!(extraction.parsed);
    assert_eq!(import_targets(&extraction), Vec::<&str>::new());
    assert_eq!(symbol(&extraction, "p", "package").start_line, 1);
    assert_eq!(symbol(&extraction, "done", "function").start_line, 3);
    assert!(!extraction.symbols.iter().any(|symbol| symbol.name == "x"));
}

#[test]
fn rust_extraction_handles_deep_symbol_nesting_iteratively() {
    let depth = 1_500;
    let mut source = String::new();
    for index in 0..depth {
        source.push_str(&format!("mod m{index} {{\n"));
    }
    source.push_str("fn leaf() {}\n");
    source.push_str(&"}\n".repeat(depth));

    let extraction = extraction(SupportedLanguage::Rust, &source);

    assert!(extraction.parsed);
    let leaf = symbol(&extraction, "leaf", "function");
    assert_eq!(leaf.nesting_depth, depth as u64);
    assert!(leaf
        .parent
        .as_deref()
        .is_some_and(|parent| parent.starts_with("m0::m1::m2")));
    assert!(leaf
        .parent
        .as_deref()
        .is_some_and(|parent| parent.ends_with(&format!("m{}", depth - 1))));
}

#[test]
fn typescript_extraction_handles_deep_symbol_nesting_iteratively() {
    let depth = 1_000;
    let mut source = String::new();
    for index in 0..depth {
        source.push_str(&format!("namespace n{index} {{\n"));
    }
    source.push_str("function leaf() { return true; }\n");
    source.push_str(&"}\n".repeat(depth));

    let extraction = extraction(SupportedLanguage::TypeScript, &source);

    assert!(extraction.parsed);
    let leaf = symbol(&extraction, "leaf", "function");
    assert_eq!(leaf.nesting_depth, depth as u64);
    assert!(leaf
        .parent
        .as_deref()
        .is_some_and(|parent| parent.starts_with("n0::n1::n2")));
    assert!(leaf
        .parent
        .as_deref()
        .is_some_and(|parent| parent.ends_with(&format!("n{}", depth - 1))));
}

#[test]
fn complexity_handles_deep_control_flow_iteratively() {
    let depth = 1_000;
    let mut source = "fn deep() {\n".to_owned();
    for _ in 0..depth {
        source.push_str("if true {\n");
    }
    source.push_str(&"}\n".repeat(depth));
    source.push_str("}\n");

    let extraction = extraction(SupportedLanguage::Rust, &source);

    assert!(extraction.parsed);
    let deep = symbol(&extraction, "deep", "function");
    assert_eq!(deep.cyclomatic_complexity, Some(depth as u64 + 1));
    assert_eq!(deep.max_control_flow_nesting, Some(depth as u64));
}

#[test]
fn typescript_extraction_records_namespaces_types_methods_and_complexity() {
    let source = r#"
import React from "react";
import { x } from "./x";

namespace UI {
    export interface Props {
        onClick(): void;
    }

    export type Mode = "a" | "b";

    export class Button {
        render() {
            if (true) {
                while (false) {}
            }
        }
    }
}

function helper() {
    return true ? 1 : 2;
}
"#;

    let extraction = extraction(SupportedLanguage::TypeScript, source);

    assert!(extraction.parsed);
    assert_eq!(import_targets(&extraction), vec!["react", "./x"]);
    assert_eq!(symbol(&extraction, "UI", "namespace").start_line, 5);
    assert_eq!(symbol(&extraction, "Props", "interface").start_line, 6);
    assert_eq!(symbol(&extraction, "Mode", "type_alias").start_line, 10);
    assert_eq!(symbol(&extraction, "Button", "class").start_line, 12);

    let render = symbol(&extraction, "render", "method");
    assert_eq!(render.parent.as_deref(), Some("UI::Button"));
    assert_eq!(render.cyclomatic_complexity, Some(3));
    assert_eq!(render.max_control_flow_nesting, Some(2));

    let helper = symbol(&extraction, "helper", "function");
    assert_eq!(helper.cyclomatic_complexity, Some(2));
    assert_eq!(helper.max_control_flow_nesting, Some(1));
}

#[test]
fn tsx_extraction_uses_tsx_grammar() {
    let source = r#"
import React from "react";

export function App() {
    return <div>{true ? <span /> : null}</div>;
}
"#;

    let extraction = extraction(SupportedLanguage::Tsx, source);

    assert!(extraction.parsed);
    assert_eq!(import_targets(&extraction), vec!["react"]);
    let app = symbol(&extraction, "App", "function");
    assert_eq!(app.cyclomatic_complexity, Some(2));
    assert_eq!(app.max_control_flow_nesting, Some(1));
}

#[test]
fn syntax_errors_are_warnings_without_discarding_tree() {
    let extraction = extraction(SupportedLanguage::Rust, "fn broken( {\n");

    assert!(extraction.parsed);
    assert_eq!(extraction.warnings.len(), 1);
    assert_eq!(extraction.warnings[0].code, "syntax_error");
    assert_eq!(extraction.warnings[0].path.as_deref(), Some("src/sample"));
}

#[test]
fn signature_truncation_handles_utf8_boundaries() {
    let source = format!("fn long_{}() {{}}\n", "é".repeat(200));

    let extraction = extraction(SupportedLanguage::Rust, &source);

    assert!(extraction.parsed);
    assert!(symbol(
        &extraction,
        &format!("long_{}", "é".repeat(200)),
        "function"
    )
    .signature
    .as_deref()
    .is_some_and(|signature| signature.len() <= 180));
}

fn record(
    path: &str,
    byte_size: Option<u64>,
    language: Option<&'static str>,
    content: ContentKind,
) -> FileRecord {
    FileRecord {
        path: path.to_owned(),
        byte_size,
        extension: file_extension(path),
        language,
        line_count: None,
        is_vendor: false,
        is_generated: false,
        content,
        is_symlink: false,
        classification: "implemented",
        warnings: Vec::new(),
    }
}

#[test]
fn parse_report_marks_unsupported_files_as_skipped() {
    let report = parse_scan_report(&ScanReport::from_files(vec![
        record("README.md", Some(20), Some("Markdown"), ContentKind::Text),
        record("assets/logo.bin", Some(8), None, ContentKind::Binary),
        record("src/lib.rs", Some(10), Some("Rust"), ContentKind::Text),
    ]));
    let summary = report.summary();
    let files = &report.files;

    assert_eq!(summary.total_files, 3);
    assert_eq!(summary.candidate_files, 1);
    assert_eq!(summary.parsed_files, 0);
    assert_eq!(summary.pending_files, 1);
    assert_eq!(summary.skipped_files, 2);
    assert!(report.symbols.is_empty());
    assert!(report.imports.is_empty());
    assert_eq!(files[0].path, "README.md");
    assert_eq!(files[0].status, ParseFileStatus::Skipped);
    assert_eq!(files[0].reason, Some(ParseFileReason::UnsupportedLanguage));
    assert_eq!(files[1].path, "assets/logo.bin");
    assert_eq!(files[1].status, ParseFileStatus::Skipped);
    assert_eq!(files[1].reason, Some(ParseFileReason::UnsupportedContent));
    assert_eq!(files[2].path, "src/lib.rs");
    assert_eq!(files[2].status, ParseFileStatus::Pending);
    assert_eq!(
        files[2].reason,
        Some(ParseFileReason::ParserExtractionPending)
    );
}

#[test]
fn parsed_files_are_gathered_in_a_report() {
    let scan = ScanReport::from_files(vec![
        record("src/lib.rs", Some(10), Some("Rust"), ContentKind::Text),
        record("README.md", Some(20), Some("Markdown"), ContentKind::Text),
        record("src/blocked.go", Some(10), Some("Go"), ContentKind::Text),
        record("src/bytes.ts", Some(10), Some("TypeScript"), ContentKind::Text),
    ]);
    let reads = [
        SourceRead::Text("mod child;\nfn free() {}\n".to_owned()),
        SourceRead::Text(String::new()),
        SourceRead::Failed {
            message: "denied".to_owned(),
        },
        SourceRead::NotUtf8,
    ];
    assert_eq!(
        language_to_read(&scan.files[0]),
        Some(SupportedLanguage::Rust)
    );
    assert_eq!(language_to_read(&scan.files[1]), None);

    let outputs = scan
        .files
        .iter()
        .zip(reads.iter())
        .map(|(file, read)| parse_file_from_scan(file, read))
        .collect::<Vec<_>>();
    let progress = parse_progress(&scan, &outputs);
    let report = report_from_scan(&scan, outputs);
    let summary = report.summary();

    assert_eq!(progress.last().map(|step| step.completed_files), Some(3));
    assert_eq!(progress.last().map(|step| step.total_files), Some(3));
    assert_eq!(summary.total_files, 4);
    assert_eq!(summary.parsed_files, 1);
    assert_eq!(summary.skipped_files, 3);
    assert_eq!(
        summary.parsed_files + summary.pending_files + summary.skipped_files,
        summary.total_files
    );
    assert_eq!(summary.symbol_count, 2);
    assert_eq!(summary.import_count, 1);
    assert_eq!(summary.warning_count, 2);
    assert!(parse_summary(&report).starts_with("Hotpath parse summary\ntotal files   4"));
    let reasons: Vec<(&str, Option<ParseFileReason>)> = report
        .files
        .iter()
        .map(|file| (file.path.as_str(), file.reason))
        .collect();
    assert!(reasons.contains(&("src/blocked.go", Some(ParseFileReason::ReadFailed))));
    assert!(reasons.contains(&("src/bytes.ts", Some(ParseFileReason::UnsupportedEncoding))));
}

#[test]
fn extraction_without_a_tree_is_reported() {
    let grammar = ParseOutcome::GrammarFailed {
        message: "version mismatch".to_owned(),
    };
    let failed = extract_from_outcome("a.rs", SupportedLanguage::Rust, &grammar, "fn a() {}");
    let missing =
        extract_from_outcome("a.rs", SupportedLanguage::Rust, &ParseOutcome::NoTree, "fn a() {}");

    assert!(!failed.parsed);
    assert!(failed.warnings[0].message.contains("version mismatch"));
    assert!(!missing.parsed);
    assert!(missing.symbols.is_empty());
}

#[test]
fn syntax_trees_hold_their_nodes_in_order() {
    let outcome = parse_tree(SupportedLanguage::Rust, "fn a() {}\n");

    match outcome {
        ParseOutcome::Tree { flawed, nodes } => {
            assert!(!flawed);
            assert_eq!(nodes[0].kind, "source_file");
            assert_eq!(nodes[1].kind, "function_item");
            assert_eq!(nodes[1].depth, 1);
            assert!(nodes
                .windows(2)
                .all(|pair| pair[0].start_byte <= pair[1].start_byte));
            let name = nodes
                .iter()
                .find(|node| node.field.as_deref() == Some("name"))
                .expect("a function has a name");
            assert_eq!((name.start_byte, name.end_byte), (3, 4));
        }
        other => panic!("expected a tree, got {other:?}"),
    }
}
