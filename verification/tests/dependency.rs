use hotpath::{
    fan_metrics, resolve_dependencies, ContentKind, FileDependencyFan, ParseFileRecord,
    ParseFileStatus, ParseImportRecord, ParseReport, ParseSymbolRecord, ResolvedDependencyEdge,
};

fn parse_import(path: &str, target: &str, kind: &str) -> ParseImportRecord {
    ParseImportRecord {
        path: path.to_owned(),
        target: target.to_owned(),
        kind: kind.to_owned(),
        start_line: 1,
        end_line: 1,
    }
}

fn file(path: &str, language: &'static str) -> ParseFileRecord {
    ParseFileRecord {
        path: path.to_owned(),
        language: Some(language),
        content: ContentKind::Text,
        status: ParseFileStatus::Parsed,
        reason: None,
        symbol_count: 0,
        import_count: 0,
    }
}

fn report(files: Vec<ParseFileRecord>, imports: Vec<ParseImportRecord>) -> ParseReport {
    ParseReport {
        warnings: Vec::new(),
        files,
        symbols: Vec::new(),
        imports,
    }
}

fn edge_paths(edges: &[ResolvedDependencyEdge]) -> Vec<(&str, &str, &str)> {
    edges
        .iter()
        .map(|edge| {
            (
                edge.source_path.as_str(),
                edge.target_path.as_str(),
                edge.kind.as_str(),
            )
        })
        .collect()
}

#[test]
fn resolves_conservative_rust_module_and_use_edges() {
    let report = report(
        vec![
            file("src/lib.rs", "Rust"),
            file("src/child.rs", "Rust"),
            file("src/models/mod.rs", "Rust"),
        ],
        vec![
            parse_import("src/lib.rs", "child", "mod"),
            parse_import("src/lib.rs", "crate::models::Widget", "use"),
            parse_import("src/lib.rs", "std::fmt", "use"),
            parse_import("src/lib.rs", "crate::{fmt, io}", "use"),
        ],
    );

    let edges = resolve_dependencies(&report);

    assert_eq!(
        edge_paths(&edges),
        vec![
            ("src/lib.rs", "src/child.rs", "mod"),
            ("src/lib.rs", "src/models/mod.rs", "use"),
        ]
    );
}

#[test]
fn leaves_nested_rust_mod_declarations_unresolved() {
    let mut report = report(
        vec![file("src/lib.rs", "Rust"), file("src/child.rs", "Rust")],
        vec![parse_import("src/lib.rs", "child", "mod")],
    );
    report.imports[0].start_line = 2;
    report.imports[0].end_line = 2;
    report.symbols.push(ParseSymbolRecord {
        path: "src/lib.rs".to_owned(),
        name: "outer".to_owned(),
        kind: "module".to_owned(),
        start_line: 1,
        end_line: 3,
        signature: Some("mod outer".to_owned()),
        nesting_depth: 0,
        parent: None,
        cyclomatic_complexity: None,
        max_control_flow_nesting: None,
    });

    assert!(resolve_dependencies(&report).is_empty());
}

#[test]
fn leaves_ambiguous_rust_and_typescript_imports_unresolved() {
    let report = report(
        vec![
            file("src/lib.rs", "Rust"),
            file("src/child.rs", "Rust"),
            file("src/child/mod.rs", "Rust"),
            file("web/app.ts", "TypeScript"),
            file("web/value.ts", "TypeScript"),
            file("web/value.tsx", "TypeScript JSX"),
        ],
        vec![
            parse_import("src/lib.rs", "child", "mod"),
            parse_import("web/app.ts", "./value", "import"),
        ],
    );

    assert!(resolve_dependencies(&report).is_empty());
}

#[test]
fn resolves_typescript_relative_imports_and_rejects_escapes() {
    let report = report(
        vec![
            file("web/app.ts", "TypeScript"),
            file("web/components/index.tsx", "TypeScript JSX"),
            file("shared/util.ts", "TypeScript"),
        ],
        vec![
            parse_import("web/app.ts", "./components", "import"),
            parse_import("web/app.ts", "../shared/util", "import"),
            parse_import("web/app.ts", "../../outside", "import"),
            parse_import("web/app.ts", "react", "import"),
        ],
    );

    let edges = resolve_dependencies(&report);

    assert_eq!(
        edge_paths(&edges),
        vec![
            ("web/app.ts", "shared/util.ts", "import"),
            ("web/app.ts", "web/components/index.tsx", "import"),
        ]
    );
}

#[test]
fn fan_metrics_count_distinct_sources_and_targets() {
    let files = vec![
        file("src/a.rs", "Rust"),
        file("src/b.rs", "Rust"),
        file("src/c.rs", "Rust"),
    ];
    let edges = vec![
        ResolvedDependencyEdge {
            source_path: "src/a.rs".to_owned(),
            target_path: "src/b.rs".to_owned(),
            kind: "use".to_owned(),
        },
        ResolvedDependencyEdge {
            source_path: "src/a.rs".to_owned(),
            target_path: "src/b.rs".to_owned(),
            kind: "mod".to_owned(),
        },
        ResolvedDependencyEdge {
            source_path: "src/c.rs".to_owned(),
            target_path: "src/b.rs".to_owned(),
            kind: "use".to_owned(),
        },
    ];

    let fan = fan_metrics(&files, &edges);

    assert_eq!(fan.dependency_edge_count, 3);
    assert_eq!(
        fan.by_path.get("src/a.rs").copied(),
        Some(FileDependencyFan {
            fan_in: 0,
            fan_out: 1
        })
    );
    assert_eq!(
        fan.by_path.get("src/b.rs").copied(),
        Some(FileDependencyFan {
            fan_in: 2,
            fan_out: 0
        })
    );
    assert_eq!(fan.max_fan_in, 2);
    assert_eq!(fan.max_fan_out, 1);
}
