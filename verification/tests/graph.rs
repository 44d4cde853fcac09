use hotpath::graph::{render_summary, report_from_parse, selector_matches_path};
use hotpath::{ContentKind, ParseFileRecord, ParseFileStatus, ParseImportRecord, ParseReport};

fn parse_import(path: &str, target: &str, kind: &str) -> ParseImportRecord {
    ParseImportRecord {
        path: path.to_owned(),
        target: target.to_owned(),
        kind: kind.to_owned(),
        start_line: 1,
        end_line: 1,
    }
}

fn file(path: &str, language: &'static str) -> ParseFileRecord {
    ParseFileRecord {
        path: path.to_owned(),
        language: Some(language),
        content: ContentKind::Text,
        status: ParseFileStatus::Parsed,
        reason: None,
        symbol_count: 0,
        import_count: 0,
    }
}

fn report(files: Vec<ParseFileRecord>, imports: Vec<ParseImportRecord>) -> ParseReport {
    ParseReport {
        warnings: Vec::new(),
        files,
        symbols: Vec::new(),
        imports,
    }
}

#[test]
fn bare_selector_matches_components_and_file_stems() {
    assert!(selector_matches_path("auth", "src/auth.rs"));
    assert!(selector_matches_path("auth", "src/auth/mod.rs"));
    assert!(selector_matches_path("auth", "src/auth/login.rs"));
    assert!(selector_matches_path("auth", "web/auth.ts"));
    assert!(!selector_matches_path("auth", "web/authorize.ts"));
}

#[test]
fn path_selector_matches_normalized_repository_relative_prefixes() {
    assert!(selector_matches_path("src/auth", "src/auth.rs"));
    assert!(selector_matches_path("./src\\auth", "src/auth/login.rs"));
    assert!(selector_matches_path("auth.rs", "auth.rs"));
    assert!(!selector_matches_path("src/auth", "src/authz.rs"));
    assert!(!selector_matches_path(
        "src/auth",
        "src/authentication/mod.rs"
    ));
    assert!(!selector_matches_path("auth.rs", "src/auth.rs"));
    assert!(!selector_matches_path("", "src/auth.rs"));
}

#[test]
fn report_includes_matched_files_and_one_hop_edges() {
    let report = report(
        vec![
            file("src/lib.rs", "Rust"),
            file("src/auth.rs", "Rust"),
            file("src/models.rs", "Rust"),
        ],
        vec![
            parse_import("src/lib.rs", "auth", "mod"),
            parse_import("src/auth.rs", "crate::models::User", "use"),
        ],
    );

    let graph = report_from_parse("auth", &report);

    assert_eq!(graph.selector, "auth");
    assert_eq!(graph.matched_files, vec!["src/auth.rs"]);
    assert_eq!(graph.summary.matched_file_count, 1);
    assert_eq!(graph.summary.outgoing_edge_count, 1);
    assert_eq!(graph.summary.incoming_edge_count, 1);
    assert_eq!(graph.outgoing[0].source_path, "src/auth.rs");
    assert_eq!(graph.outgoing[0].target_path, "src/models.rs");
    assert_eq!(graph.outgoing[0].kind, "use");
    assert_eq!(graph.incoming[0].source_path, "src/lib.rs");
    assert_eq!(graph.incoming[0].target_path, "src/auth.rs");
    assert_eq!(graph.incoming[0].kind, "mod");
}

#[test]
fn report_shape_is_empty_for_no_matches() {
    let graph = report_from_parse("missing", &report(vec![file("src/lib.rs", "Rust")], vec![]));

    assert_eq!(graph.summary.matched_file_count, 0);
    assert!(graph.matched_files.is_empty());
    assert!(graph.outgoing.is_empty());
    assert!(graph.incoming.is_empty());
    assert!(render_summary(&graph).contains("  none"));
}
