use hotpath::scan::classify::{
    classify_file, file_warning, normalized_relative_path, FileObservation,
};
use hotpath::scan::repository::{RootLookup, SeenFile, WalkedEntry};
use hotpath::scan::walk::{
    is_internal_entry, is_walked_file, scan_warning, EntryKind, WalkFault,
};
use hotpath::scan::{
    file_extension, is_generated_path, is_vendor_path, language_guess, MAX_TEXT_READ_BYTES,
};
use hotpath::{
    scan_repository, scan_summary, ContentKind, FileRecord, ScanError, ScanReport, ScanWarning,
};

fn scan_warning_record(code: &'static str, path: Option<&str>) -> ScanWarning {
    scan_warning(
        code,
        path.map(ToOwned::to_owned),
        "test scan warning".to_owned(),
    )
}

fn record(
    path: &str,
    byte_size: Option<u64>,
    language: Option<&'static str>,
    content: ContentKind,
) -> FileRecord {
    FileRecord {
        path: path.to_owned(),
        byte_size,
        extension: file_extension(path),
        language,
        line_count: None,
        is_vendor: false,
        is_generated: false,
        content,
        is_symlink: false,
        classification: "implemented",
        warnings: Vec::new(),
    }
}

#[test]
fn language_guesses_cover_supported_extensions_and_special_file_names() {
    let cases = [
        ("script.bash", Some("Shell")),
        ("script.sh", Some("Shell")),
        ("script.zsh", Some("Shell")),
        ("main.c", Some("C")),
        ("main.cc", Some("C++")),
        ("main.cpp", Some("C++")),
        ("main.cxx", Some("C++")),
        ("include.hpp", Some("C++")),
        ("include.hh", Some("C++")),
        ("include.hxx", Some("C++")),
        ("Program.cs", Some("C#")),
        ("style.css", Some("CSS")),
        ("main.go", Some("Go")),
        ("include.h", Some("C/C++ Header")),
        ("index.htm", Some("HTML")),
        ("index.html", Some("HTML")),
        ("Main.java", Some("Java")),
        ("index.js", Some("JavaScript")),
        ("index.mjs", Some("JavaScript")),
        ("index.cjs", Some("JavaScript")),
        ("data.json", Some("JSON")),
        ("view.jsx", Some("JavaScript JSX")),
        ("Main.kt", Some("Kotlin")),
        ("build.gradle.kts", Some("Kotlin")),
        ("README.markdown", Some("Markdown")),
        ("index.php", Some("PHP")),
        ("schema.proto", Some("Protocol Buffers")),
        ("build.ps1", Some("PowerShell")),
        ("tool.py", Some("Python")),
        ("tool.rb", Some("Ruby")),
        ("lib.rs", Some("Rust")),
        ("Job.scala", Some("Scala")),
        ("style.scss", Some("Sass")),
        ("query.sql", Some("SQL")),
        ("App.swift", Some("Swift")),
        ("Cargo.toml", Some("TOML")),
        ("index.ts", Some("TypeScript")),
        ("index.tsx", Some("TypeScript JSX")),
        ("document.xml", Some("XML")),
        ("config.yaml", Some("YAML")),
        ("config.yml", Some("YAML")),
        ("Dockerfile", Some("Dockerfile")),
        ("Containerfile", Some("Dockerfile")),
        ("Makefile", Some("Makefile")),
        ("unknown.hotpath", None),
    ];

    for (path, expected) in cases {
        assert_eq!(language_guess(path), expected, "language guess for {path}");
    }
}

#[test]
fn path_classification_covers_generated_suffixes_and_vendor_components() {
    for path in [
        "src/schema.pb.go",
        "src/schema.pb.rs",
        "src/messages.g.cs",
        "src/api.gen.ts",
        "generated/client.ts",
        "build/client.ts",
        "dist/client.js",
    ] {
        assert!(is_generated_path(path), "{path} should be generated");
    }

    for path in [
        "third_party/pkg/lib.rs",
        "third-party/pkg/lib.rs",
        "external/pkg/lib.rs",
        "vendor/pkg/lib.rs",
        "node_modules/pkg/index.js",
    ] {
        assert!(is_vendor_path(path), "{path} should be vendor");
    }

    assert!(!is_generated_path("src/generation_notes.rs"));
    assert!(!is_vendor_path("src/vendor_notes.rs"));
}

#[test]
fn summary_reports_concise_totals() {
    let mut generated = record(
        "dist/app.generated.js",
        Some(30),
        Some("JavaScript"),
        ContentKind::Text,
    );
    generated.is_generated = true;
    let mut vendor = record("vendor/blob.bin", Some(5), None, ContentKind::Binary);
    vendor.is_vendor = true;
    let mut unknown = record("notes.txt", None, None, ContentKind::Unknown);
    unknown.warnings.push(file_warning(
        "read_failed",
        "failed to open file contents: denied".to_owned(),
    ));

    let scan = ScanReport::from_files(vec![
        record("src/lib.rs", Some(10), Some("Rust"), ContentKind::Text),
        generated,
        vendor,
        unknown,
    ]);
    let summary = scan_summary(&scan);

    assert_eq!(
        summary,
        "Hotpath scan summary\ntotal files   4\ntotal bytes   45\ncontent       text 2, binary 1, unknown 1\nflags         generated 1, vendor 1\nwarnings      1 (unreadable 1, skipped 0)\nlanguages\n  JavaScript  1\n  Rust        1"
    );
}

#[test]
fn summary_omits_warning_line_when_no_warnings_are_present() {
    let scan = ScanReport::from_files(vec![record(
        "src/lib.rs",
        Some(10),
        Some("Rust"),
        ContentKind::Text,
    )]);

    let summary = scan_summary(&scan);

    assert!(!summary.contains("warnings:"));
}

#[test]
fn summary_reports_empty_language_counts_explicitly() {
    let scan = ScanReport::from_files(vec![record(
        "blob.bin",
        Some(10),
        None,
        ContentKind::Binary,
    )]);

    let summary = scan_summary(&scan);

    assert_eq!(
        summary,
        "Hotpath scan summary\ntotal files   1\ntotal bytes   10\ncontent       text 0, binary 1, unknown 0\nflags         generated 0, vendor 0\nlanguages\n  none"
    );
}

#[test]
fn summary_reports_skipped_warning_counts() {
    let mut skipped = record("large.txt", Some(10), None, ContentKind::Text);
    skipped.warnings.push(file_warning(
        "line_count_skipped",
        "file is larger than the safe text read limit".to_owned(),
    ));

    let summary = scan_summary(&ScanReport::from_files(vec![skipped]));

    assert_eq!(
        summary,
        "Hotpath scan summary\ntotal files   1\ntotal bytes   10\ncontent       text 1, binary 0, unknown 0\nflags         generated 0, vendor 0\nwarnings      1 (unreadable 0, skipped 1)\nlanguages\n  none"
    );
}

#[test]
fn summary_reports_scan_warning_counts() {
    let scan = ScanReport::from_parts(
        vec![scan_warning_record("walk_io_error", Some("blocked"))],
        vec![record(
            "src/lib.rs",
            Some(10),
            Some("Rust"),
            ContentKind::Text,
        )],
    );

    let summary = scan_summary(&scan);

    assert_eq!(
        summary,
        "Hotpath scan summary\ntotal files   1\ntotal bytes   10\ncontent       text 1, binary 0, unknown 0\nflags         generated 0, vendor 0\nwarnings      1 (scan 1, unreadable 1, skipped 1)\nlanguages\n  Rust  1"
    );
}

#[test]
fn summary_counts_unsupported_file_type_scan_warning_as_skipped() {
    let scan = ScanReport::from_parts(
        vec![scan_warning_record(
            "unsupported_file_type",
            Some("unknown-entry"),
        )],
        Vec::new(),
    );

    let summary = scan.summary();

    assert_eq!(summary.warnings.total_warnings, 1);
    assert_eq!(summary.warnings.scan_warnings, 1);
    assert_eq!(summary.warnings.unreadable_warnings, 0);
    assert_eq!(summary.warnings.skipped_warnings, 1);
}

fn components(path: &str) -> Vec<String> {
    path.split('/').map(|part| part.to_owned()).collect()
}

fn classified(path: &str, is_symlink: bool, observation: FileObservation) -> FileRecord {
    classify_file(
        normalized_relative_path(&components(path)),
        is_symlink,
        &observation,
    )
}

fn with_bytes(path: &str, bytes: &[u8]) -> FileRecord {
    let read = bytes.len().min(MAX_TEXT_READ_BYTES as usize + 1);
    classified(
        path,
        false,
        FileObservation::Contents {
            byte_size: bytes.len() as u64,
            bytes: bytes[..read].to_vec(),
        },
    )
}

#[test]
fn binary_files_are_classified_without_line_counts() {
    let record = with_bytes("image.bin", &[0x89, b'P', b'N', b'G', 0, 1, 2, 3]);

    assert_eq!(record.byte_size, Some(8));
    assert_eq!(record.extension, Some("bin".to_owned()));
    assert_eq!(record.content, ContentKind::Binary);
    assert_eq!(record.line_count, None);
    assert!(record.warnings.is_empty());
}

#[test]
fn nul_after_initial_sample_classifies_file_as_binary() {
    let mut contents = vec![b'a'; 8192 + 1];
    contents.push(0);

    let record = with_bytes("delayed.bin", &contents);

    assert_eq!(record.content, ContentKind::Binary);
    assert_eq!(record.line_count, None);
    assert!(record.warnings.is_empty());
}

#[test]
fn text_larger_than_read_limit_skips_line_count() {
    let contents = vec![b'a'; MAX_TEXT_READ_BYTES as usize + 1];

    let record = with_bytes("large.txt", &contents);

    assert_eq!(record.content, ContentKind::Text);
    assert_eq!(record.line_count, None);
    assert_eq!(record.warnings.len(), 1);
    assert_eq!(record.warnings[0].code, "line_count_skipped");
}

#[test]
fn utf8_text_files_record_line_counts_and_sizes() {
    let record = with_bytes("src/lib.rs", b"fn main() {}\n\n// done\n");

    assert_eq!(record.byte_size, Some(22));
    assert_eq!(record.extension, Some("rs".to_owned()));
    assert_eq!(record.language, Some("Rust"));
    assert_eq!(record.content, ContentKind::Text);
    assert_eq!(record.line_count, Some(3));
}

#[test]
fn invalid_utf8_fallback_does_not_panic_or_count_lines() {
    let record = with_bytes("bad.txt", &[b'a', 0xff, b'\n']);

    assert_eq!(record.byte_size, Some(3));
    assert_eq!(record.extension, Some("txt".to_owned()));
    assert_eq!(record.content, ContentKind::Unknown);
    assert_eq!(record.line_count, None);
    assert_eq!(record.warnings.len(), 1);
    assert_eq!(record.warnings[0].code, "unsupported_encoding");
}

#[test]
fn vendor_and_generated_paths_are_flagged() {
    let vendor = with_bytes("node_modules/pkg/index.js", b"");
    let generated = with_bytes("src/api.generated.ts", b"");
    let handwritten = with_bytes("src/handwritten.ts", b"");

    assert!(vendor.is_vendor);
    assert!(!vendor.is_generated);
    assert!(generated.is_generated);
    assert!(!generated.is_vendor);
    assert!(!handwritten.is_vendor);
    assert!(!handwritten.is_generated);
}

#[test]
fn vendor_and_generated_component_matching_is_case_insensitive() {
    let vendor = with_bytes("Node_Modules/pkg/index.js", b"");
    let generated = with_bytes("Src/CodeGen/api.ts", b"");

    assert!(vendor.is_vendor);
    assert!(generated.is_generated);
}

#[test]
fn extension_and_language_guesses_are_conservative() {
    let markdown = with_bytes("README.md", b"");
    let dockerfile = with_bytes("Dockerfile", b"");
    let tsx = with_bytes("src/view.tsx", b"");
    let unknown = with_bytes("unknown.hotpath", b"");

    assert_eq!(markdown.extension, Some("md".to_owned()));
    assert_eq!(markdown.language, Some("Markdown"));
    assert_eq!(dockerfile.extension, None);
    assert_eq!(dockerfile.language, Some("Dockerfile"));
    assert_eq!(tsx.extension, Some("tsx".to_owned()));
    assert_eq!(tsx.language, Some("TypeScript JSX"));
    assert_eq!(unknown.extension, Some("hotpath".to_owned()));
    assert_eq!(unknown.language, None);
}

#[test]
fn symlinked_files_inside_scan_root_are_classified() {
    let record = classified(
        "linked.rs",
        true,
        FileObservation::Contents {
            byte_size: 15,
            bytes: b"fn linked() {}\n".to_vec(),
        },
    );

    assert!(record.is_symlink);
    assert_eq!(record.language, Some("Rust"));
    assert_eq!(record.content, ContentKind::Text);
    assert_eq!(record.line_count, Some(1));
    assert!(record.warnings.is_empty());
}

#[test]
fn symlinked_files_outside_scan_root_are_recorded_without_content() {
    let record = classified("linked.rs", true, FileObservation::TargetOutside);

    assert!(record.is_symlink);
    assert_eq!(record.byte_size, None);
    assert_eq!(record.content, ContentKind::Unknown);
    assert_eq!(record.line_count, None);
    assert_eq!(record.warnings.len(), 1);
    assert_eq!(record.warnings[0].code, "symlink_target_outside_root");
}

#[test]
fn unreadable_symlink_targets_are_recorded_without_content() {
    let record = classified(
        "linked.rs",
        true,
        FileObservation::TargetUnreadable {
            message: "No such file or directory".to_owned(),
        },
    );

    assert!(record.is_symlink);
    assert_eq!(record.byte_size, None);
    assert_eq!(record.content, ContentKind::Unknown);
    assert_eq!(record.line_count, None);
    assert_eq!(record.warnings.len(), 1);
    assert_eq!(record.warnings[0].code, "symlink_target_unreadable");
}

fn directory() -> RootLookup {
    RootLookup::Directory {
        root: "/repo".to_owned(),
    }
}

fn entry(path: &str, kind: EntryKind, fault: Option<WalkFault>) -> WalkedEntry {
    WalkedEntry::Entry {
        path: format!("/repo/{path}"),
        fault,
        kind,
        seen: is_walked_file(kind).then(|| SeenFile {
            is_symlink: false,
            observation: FileObservation::Contents {
                byte_size: 0,
                bytes: Vec::new(),
            },
        }),
    }
}

fn walked(path: &str) -> WalkedEntry {
    entry(path, EntryKind::File, None)
}

fn io_fault(path: &str) -> WalkFault {
    WalkFault::WithDepth {
        fault: Box::new(WalkFault::WithPath {
            path: format!("/repo/{path}"),
            fault: Box::new(WalkFault::Io {
                message: "PermissionDenied (os error 13)".to_owned(),
            }),
        }),
    }
}

#[test]
fn scan_records_are_sorted_by_normalized_relative_path() {
    let report = scan_repository(
        "/repo",
        directory(),
        vec![walked("z.rs"), walked("nested/m.rs"), walked("a.rs")],
    )
    .expect("scan should succeed");
    let paths: Vec<&str> = report.files.iter().map(|file| file.path.as_str()).collect();

    assert_eq!(paths, vec!["a.rs", "nested/m.rs", "z.rs"]);
}

#[test]
fn scanned_directories_may_lie_on_a_drive() {
    for root in ["C:/repo", "//?/C:/repo"] {
        let below = |path: &str| match walked(path) {
            WalkedEntry::Entry {
                fault, kind, seen, ..
            } => WalkedEntry::Entry {
                path: format!("{root}/{path}"),
                fault,
                kind,
                seen,
            },
            failed => failed,
        };
        let report = scan_repository(
            root,
            RootLookup::Directory {
                root: root.to_owned(),
            },
            vec![below("src/b.rs"), below("a.rs"), below(".hotpath/x.rs")],
        )
        .expect("scan should succeed");
        let paths: Vec<&str> = report.files.iter().map(|file| file.path.as_str()).collect();

        assert_eq!(paths, vec!["a.rs", "src/b.rs"]);
    }
}

#[test]
fn scan_warnings_are_sorted_by_path_code_and_message() {
    let report = scan_repository(
        "/repo",
        directory(),
        vec![
            WalkedEntry::Failed {
                fault: io_fault("b"),
                is_io: true,
            },
            WalkedEntry::Failed {
                fault: WalkFault::InvalidDefinition,
                is_io: false,
            },
            entry("b", EntryKind::Unavailable, None),
            entry("", EntryKind::Other, Some(WalkFault::Partial(Vec::new()))),
        ],
    )
    .expect("scan should succeed");
    let listed: Vec<(Option<&str>, &str)> = report
        .warnings
        .iter()
        .map(|warning| (warning.path.as_deref(), warning.code))
        .collect();

    assert!(report.files.is_empty());
    assert_eq!(
        listed,
        vec![
            (None, "ignore_parse_error"),
            (None, "walk_error"),
            (Some("b"), "unsupported_file_type"),
            (Some("b"), "walk_io_error"),
        ]
    );
    assert_eq!(
        report.warnings[0].message,
        "failed to apply ignore rules: unknown partial error"
    );
}

#[test]
fn scan_rejects_missing_roots_with_actionable_error() {
    let missing = "/fixtures/missing-root/missing";
    let error = scan_repository(
        missing,
        RootLookup::Failed {
            message: "No such file or directory (os error 2)".to_owned(),
        },
        Vec::new(),
    )
    .expect_err("missing root should fail");

    match error {
        ScanError::Root { path, message } => {
            assert_eq!(path, missing);
            assert_eq!(message, "No such file or directory (os error 2)");
        }
        error => panic!("expected root access error, got {error:?}"),
    }
}

#[test]
fn scan_rejects_non_directory_roots() {
    let root_file = "/fixtures/file-root/not-a-directory.rs";
    let error = scan_repository(root_file, RootLookup::NotDirectory, Vec::new())
        .expect_err("file root should fail");

    match error {
        ScanError::RootNotDirectory { path } => assert_eq!(path, root_file),
        error => panic!("expected non-directory root error, got {error:?}"),
    }
}

#[test]
fn scan_rejects_files_outside_the_root() {
    let outside = WalkedEntry::Entry {
        path: "/repository/a.rs".to_owned(),
        fault: None,
        kind: EntryKind::File,
        seen: Some(SeenFile {
            is_symlink: false,
            observation: FileObservation::TargetOutside,
        }),
    };

    assert_eq!(
        scan_repository("/repo", directory(), vec![walked("a.rs"), outside]),
        Err(ScanError::RelativePath {
            root: "/repo".to_owned(),
            path: "/repository/a.rs".to_owned(),
        })
    );
}

#[test]
fn ignore_parse_errors_are_scan_warnings_without_aborting() {
    let fault = WalkFault::WithPath {
        path: "/repo/.gitignore".to_owned(),
        fault: Box::new(WalkFault::WithLineNumber {
            line: 1,
            fault: Box::new(WalkFault::Glob {
                glob: Some("{foo".to_owned()),
                message: "unclosed alternate group".to_owned(),
            }),
        }),
    };
    let report = scan_repository(
        "/repo",
        directory(),
        vec![
            entry("", EntryKind::Other, Some(WalkFault::Partial(vec![fault]))),
            walked(".gitignore"),
            walked("keep.rs"),
        ],
    )
    .expect("scan should return partial results");
    let warning = report
        .warnings
        .iter()
        .find(|warning| warning.code == "ignore_parse_error" || warning.code == "walk_error")
        .expect("scan should report malformed ignore file");

    assert!(report.files.iter().any(|file| file.path == "keep.rs"));
    assert!(warning.message.contains("glob") || warning.message.contains("ignore"));
    assert_eq!(warning.path.as_deref(), Some(".gitignore"));
    assert_eq!(
        warning.message,
        "failed to apply ignore rules: line 1: error parsing glob '{foo': unclosed alternate group"
    );
}

#[test]
fn unreadable_directories_are_scan_warnings_without_aborting() {
    let report = scan_repository(
        "/repo",
        directory(),
        vec![
            entry("", EntryKind::Other, None),
            entry("blocked", EntryKind::Other, None),
            WalkedEntry::Failed {
                fault: io_fault("blocked"),
                is_io: true,
            },
            walked("keep.rs"),
        ],
    )
    .expect("scan should return partial results");

    assert!(report.files.iter().any(|file| file.path == "keep.rs"));
    assert!(!report
        .files
        .iter()
        .any(|file| file.path == "blocked/secret.rs"));
    assert!(report.warnings.iter().any(|warning| {
        warning.code == "walk_io_error" && warning.path.as_deref() == Some("blocked")
    }));
}

#[test]
fn scan_excludes_git_entries_that_are_files() {
    let report = scan_repository(
        "/repo",
        directory(),
        vec![walked(".git"), walked("keep.rs")],
    )
    .expect("scan should succeed");
    let paths: Vec<&str> = report.files.iter().map(|file| file.path.as_str()).collect();
    assert_eq!(paths, vec!["keep.rs"]);

    assert!(is_internal_entry(Some(".git"), true));
    assert!(is_internal_entry(Some(".git"), false));
    assert!(is_internal_entry(Some(".hotpath"), true));
    assert!(!is_internal_entry(Some(".hotpath"), false));
    assert!(!is_internal_entry(Some("keep.rs"), true));
    assert!(!is_internal_entry(None, true));
}

#[test]
fn scan_does_not_descend_into_symlinked_directories() {
    let linked = EntryKind::Symlink {
        target_is_file: Some(false),
    };
    let report = scan_repository(
        "/repo",
        directory(),
        vec![
            entry("", EntryKind::Other, None),
            entry("linked", linked, None),
            walked("keep.rs"),
        ],
    )
    .expect("scan should succeed");
    let paths: Vec<&str> = report.files.iter().map(|file| file.path.as_str()).collect();
    assert_eq!(paths, vec!["keep.rs"]);

    assert!(!is_walked_file(EntryKind::Symlink {
        target_is_file: Some(false)
    }));
    assert!(is_walked_file(EntryKind::Symlink {
        target_is_file: None
    }));
    assert!(is_walked_file(EntryKind::File));
    assert!(!is_walked_file(EntryKind::Other));
    assert!(!is_walked_file(EntryKind::Unavailable));
}

#[test]
fn internal_files_are_not_reported() {
    let report = scan_repository(
        "/repo",
        directory(),
        vec![
            walked(".git/config"),
            walked("nested/.git/config"),
            entry("nested/.git", EntryKind::Unavailable, Some(WalkFault::InvalidDefinition)),
            walked(".hotpath/index.sqlite"),
            walked("nested/.hotpath/notes.md"),
            walked(".gitignore"),
        ],
    )
    .expect("scan should succeed");
    let paths: Vec<&str> = report.files.iter().map(|file| file.path.as_str()).collect();

    assert_eq!(paths, vec![".gitignore", "nested/.hotpath/notes.md"]);
    assert!(report.warnings.is_empty());
}

#[test]
fn files_that_cannot_be_read_are_recorded_with_a_warning() {
    let cases = [
        (
            FileObservation::MetadataFailed {
                message: "denied".to_owned(),
            },
            None,
        ),
        (
            FileObservation::OpenFailed {
                byte_size: 4,
                message: "denied".to_owned(),
            },
            Some(4),
        ),
        (
            FileObservation::ReadFailed {
                byte_size: 4,
                message: "denied".to_owned(),
            },
            Some(4),
        ),
    ];

    for (observation, byte_size) in cases {
        let record = classified("blocked.txt", false, observation);
        assert_eq!(record.byte_size, byte_size);
        assert_eq!(record.content, ContentKind::Unknown);
        assert_eq!(record.warnings.len(), 1);
        assert!(record.warnings[0].message.contains("denied"));
    }
}
