use std::path::{Component, Path};

use hotpath::commands::{normalize_explain_file_path, ExplainPathError};
use hotpath::git::GitHistoryError;
use hotpath::paths::native::{
    lexically_normalize, NativePath, NormalPath, PathPart, RequestPlaces,
};
use hotpath::scan::file_extension;
use hotpath::{
    doctor_repository, ContentKind, ContextCommandError, DoctorError, ExplainCommandError,
    FileRecord, HotspotsCommandError, IndexError, ScanError,
};

fn native(text: &str) -> NativePath {
    let path = Path::new(text);
    NativePath {
        text: text.to_owned(),
        prefix: Vec::new(),
        rooted: path.has_root(),
        absolute: path.is_absolute(),
        parts: path
            .components()
            .filter_map(|component| match component {
                Component::ParentDir => Some(PathPart::Parent),
                Component::Normal(name) => Some(PathPart::Name(name.as_encoded_bytes().to_vec())),
                _ => None,
            })
            .collect(),
    }
}

fn places(current: &str, root: &str) -> RequestPlaces {
    RequestPlaces {
        current: Some(lexically_normalize(&native(current))),
        root: Some(lexically_normalize(&native(root))),
    }
}

/// A path on a drive, taken apart as a platform with drives does.
fn on_drive(drive: u8, names: &[&str]) -> NormalPath {
    NormalPath {
        prefix: vec![drive],
        rooted: true,
        parts: names.iter().map(|name| name.as_bytes().to_vec()).collect(),
    }
}

fn given_on_drive(drive: u8, text: &str, names: &[&str]) -> NativePath {
    NativePath {
        text: text.to_owned(),
        prefix: vec![drive],
        rooted: true,
        absolute: true,
        parts: names
            .iter()
            .map(|name| match *name {
                ".." => PathPart::Parent,
                name => PathPart::Name(name.as_bytes().to_vec()),
            })
            .collect(),
    }
}

fn git_error(message: &str) -> String {
    message.to_owned()
}

fn sqlite_error() -> String {
    "Execute returned results - did you mean to call query?".to_owned()
}

fn absolute_index_path() -> String {
    "/srv/work/target/private-repo/.hotpath/index.db".to_owned()
}

fn assert_sanitized_actionable_hotspots_error(
    error: HotspotsCommandError,
    absolute_path: &str,
    expected: &str,
) {
    let message = error.message();

    assert_eq!(message, expected);
    assert!(
        !message.contains(absolute_path),
        "hotspots persistence error leaked absolute path: {message}"
    );
}

fn assert_sanitized_actionable_explain_error(
    error: ExplainCommandError,
    absolute_path: &str,
    expected: &str,
) {
    let message = error.message();

    assert_eq!(message, expected);
    assert!(
        !message.contains(absolute_path),
        "explain persistence error leaked absolute path: {message}"
    );
}

fn assert_sanitized_actionable_context_error(
    error: ContextCommandError,
    absolute_path: &str,
    expected: &str,
) {
    let message = error.message();

    assert_eq!(message, expected);
    assert!(
        !message.contains(absolute_path),
        "context persistence error leaked absolute path: {message}"
    );
}

fn assert_sanitized_actionable_scan_error(
    error: ScanError,
    absolute_path: &str,
    expected: &str,
) {
    let message = error.message();

    assert_eq!(message, expected);
    assert!(
        !message.contains(absolute_path),
        "scan persistence error leaked absolute path: {message}"
    );
}

#[test]
fn hotspots_persistence_error_messages_are_sanitized_and_actionable() {
    let path = absolute_index_path();
    let cases = vec![
        (
            IndexError::CreateIndexDir {
                path: path.clone(),
                message: "absolute path denied".to_owned(),
            },
            "failed to persist scan results in local Hotpath index (.hotpath/index.db): could not create .hotpath; ensure the repository directory is writable",
        ),
        (
            IndexError::AccessIndex {
                path: path.clone(),
                message: "absolute path denied".to_owned(),
            },
            "failed to persist scan results in local Hotpath index (.hotpath/index.db): could not access .hotpath; ensure it is readable",
        ),
        (
            IndexError::OpenDatabase {
                path: path.clone(),
                message: sqlite_error(),
            },
            "failed to persist scan results in local Hotpath index (.hotpath/index.db): could not open .hotpath/index.db; ensure it is readable or remove it to rebuild",
        ),
        (
            IndexError::CorruptDatabase {
                path: path.clone(),
                message: sqlite_error(),
            },
            "failed to persist scan results in local Hotpath index (.hotpath/index.db): the index is unreadable or corrupt; remove .hotpath/index.db and rerun hotspots",
        ),
        (
            IndexError::CorruptMetadata {
                path: path.clone(),
                message: "schema metadata row is malformed".to_owned(),
            },
            "failed to persist scan results in local Hotpath index (.hotpath/index.db): the index schema metadata is invalid; remove .hotpath/index.db and rerun hotspots",
        ),
        (
            IndexError::UnsafeIndexDir {
                path: path.clone(),
                message: "index path resolves to a symlink".to_owned(),
            },
            "failed to persist scan results in local Hotpath index (.hotpath/index.db): refusing to use unsafe .hotpath directory; replace it with a regular directory",
        ),
        (
            IndexError::IncompatibleFutureSchema {
                path: path.clone(),
                found_version: 7,
                supported_version: 2,
            },
            "failed to persist scan results in local Hotpath index (.hotpath/index.db): index schema version 7 is newer than supported version 2; use a newer hotpath binary or remove .hotpath/index.db to rebuild",
        ),
        (
            IndexError::Migration {
                path: path.clone(),
                from_version: 1,
                to_version: 2,
                message: sqlite_error(),
            },
            "failed to persist scan results in local Hotpath index (.hotpath/index.db): could not migrate index schema from version 1 to 2; remove .hotpath/index.db to rebuild if the index can be discarded",
        ),
        (
            IndexError::PersistScan {
                path: path.clone(),
                message: sqlite_error(),
            },
            "failed to persist scan results in local Hotpath index (.hotpath/index.db): could not update .hotpath/index.db; ensure the index is writable",
        ),
        (
            IndexError::PersistGitAnalysis {
                path: path.clone(),
                message: sqlite_error(),
            },
            "failed to persist scan results in local Hotpath index (.hotpath/index.db): could not update .hotpath/index.db; ensure the index is writable",
        ),
        (
            IndexError::ReadIndex {
                path: path.clone(),
                message: sqlite_error(),
            },
            "failed to persist scan results in local Hotpath index (.hotpath/index.db): could not read .hotpath/index.db; inspect the index with `hotpath doctor`",
        ),
        (
            IndexError::InvalidScanData {
                path: path.clone(),
                message: "scan file path must be repository-relative; fix the input and rerun hotspots"
                    .to_owned(),
            },
            "failed to persist scan results in local Hotpath index (.hotpath/index.db): scan file path must be repository-relative; fix the input and rerun hotspots",
        ),
        (
            IndexError::InvalidGitAnalysisData {
                path: path.clone(),
                message:
                    "Git analysis path must be repository-relative; fix the input and rerun hotspots"
                        .to_owned(),
            },
            "failed to persist scan results in local Hotpath index (.hotpath/index.db): Git analysis path must be repository-relative; fix the input and rerun hotspots",
        ),
    ];

    for (source, expected) in cases {
        assert_sanitized_actionable_hotspots_error(
            HotspotsCommandError::PersistScan(source),
            &path,
            expected,
        );
    }
}

#[test]
fn hotspots_git_analysis_persistence_error_uses_git_analysis_action() {
    let path = absolute_index_path();

    assert_sanitized_actionable_hotspots_error(
        HotspotsCommandError::PersistGitAnalysis(
            IndexError::PersistGitAnalysis {
                path: path.clone(),
                message: sqlite_error(),
            },
        ),
        &path,
        "failed to persist Git analysis in local Hotpath index (.hotpath/index.db): could not update .hotpath/index.db; ensure the index is writable",
    );
}

#[test]
fn parse_symbol_persistence_error_uses_symbol_action() {
    let path = absolute_index_path();

    assert_sanitized_actionable_scan_error(
        ScanError::PersistSymbols(IndexError::PersistSymbols {
            path: path.clone(),
            message: sqlite_error(),
        }),
        &path,
        "failed to persist parser symbols in local Hotpath index (.hotpath/index.db): could not update .hotpath/index.db; ensure the index is writable",
    );
    assert_sanitized_actionable_scan_error(
        ScanError::PersistSymbols(IndexError::InvalidSymbolData {
            path: path.clone(),
            message: "symbol path must be repository-relative; fix the input and rerun parse"
                .to_owned(),
        }),
        &path,
        "failed to persist parser symbols in local Hotpath index (.hotpath/index.db): symbol path must be repository-relative; fix the input and rerun parse",
    );
}

#[test]
fn context_persistence_error_messages_are_sanitized_and_actionable() {
    let path = absolute_index_path();

    assert_sanitized_actionable_context_error(
        ContextCommandError::PersistScan(IndexError::CorruptDatabase {
            path: path.clone(),
            message: sqlite_error(),
        }),
        &path,
        "failed to persist scan results in local Hotpath index (.hotpath/index.db): the index is unreadable or corrupt; remove .hotpath/index.db and rerun context",
    );
    assert_sanitized_actionable_context_error(
        ContextCommandError::PersistScan(IndexError::CorruptMetadata {
            path: path.clone(),
            message: "schema metadata row is malformed".to_owned(),
        }),
        &path,
        "failed to persist scan results in local Hotpath index (.hotpath/index.db): the index schema metadata is invalid; remove .hotpath/index.db and rerun context",
    );
}

#[test]
fn explain_persistence_error_messages_are_sanitized_and_actionable() {
    let path = absolute_index_path();

    assert_sanitized_actionable_explain_error(
        ExplainCommandError::PersistScan(IndexError::CorruptDatabase {
            path: path.clone(),
            message: sqlite_error(),
        }),
        &path,
        "failed to persist scan results in local Hotpath index (.hotpath/index.db): the index is unreadable or corrupt; remove .hotpath/index.db and rerun explain",
    );
    assert_sanitized_actionable_explain_error(
        ExplainCommandError::PersistScan(IndexError::CorruptMetadata {
            path: path.clone(),
            message: "schema metadata row is malformed".to_owned(),
        }),
        &path,
        "failed to persist scan results in local Hotpath index (.hotpath/index.db): the index schema metadata is invalid; remove .hotpath/index.db and rerun explain",
    );
    assert_sanitized_actionable_explain_error(
        ExplainCommandError::PersistGitAnalysis(
            IndexError::PersistGitAnalysis {
                path: path.clone(),
                message: sqlite_error(),
            },
        ),
        &path,
        "failed to persist Git analysis in local Hotpath index (.hotpath/index.db): could not update .hotpath/index.db; ensure the index is writable",
    );
}

#[test]
fn explain_git_error_messages_cover_non_cli_history_failures() {
    let cases = [
        (
            GitHistoryError::OpenRepository {
                path: "repo".to_owned(),
                source: git_error("config is unreadable"),
            },
            "failed to open Git repository from the current worktree; ensure local Git metadata is readable",
        ),
        (
            GitHistoryError::BareRepository {
                path: "repo.git".to_owned(),
            },
            "Git repository has no worktree; hotspot score explanation requires a local worktree",
        ),
        (
            GitHistoryError::HeadNotCommit {
                path: "repo".to_owned(),
                source: git_error("object is a tree"),
            },
            "Git HEAD does not resolve to a commit: object is a tree",
        ),
        (
            GitHistoryError::Git {
                context: "walking reachable commits",
                source: git_error("revwalk failed"),
            },
            "failed to traverse Git history while walking reachable commits: revwalk failed",
        ),
        (
            GitHistoryError::UnsupportedAuthorIdentity {
                commit_id: "abc123".to_owned(),
            },
            "commit abc123 has an author name or email that is not valid UTF-8",
        ),
        (
            GitHistoryError::UnsupportedPathEncoding {
                commit_id: "def456".to_owned(),
            },
            "commit def456 changed a path that is not valid UTF-8",
        ),
    ];

    for (source, expected) in cases {
        assert!(
            ExplainCommandError::from(source)
                .message()
                .starts_with(expected),
            "expected explain Git error to start with '{expected}'"
        );
    }
}

#[test]
fn hotspots_git_error_messages_cover_non_cli_history_failures() {
    let cases = [
        (
            GitHistoryError::OpenRepository {
                path: "repo".to_owned(),
                source: git_error("config is unreadable"),
            },
            "failed to open Git repository from the current worktree; ensure local Git metadata is readable",
        ),
        (
            GitHistoryError::BareRepository {
                path: "repo.git".to_owned(),
            },
            "Git repository has no worktree; hotspot analysis requires a local worktree",
        ),
        (
            GitHistoryError::HeadNotCommit {
                path: "repo".to_owned(),
                source: git_error("object is a tree"),
            },
            "Git HEAD does not resolve to a commit: object is a tree",
        ),
        (
            GitHistoryError::Git {
                context: "walking reachable commits",
                source: git_error("revwalk failed"),
            },
            "failed to traverse Git history while walking reachable commits: revwalk failed",
        ),
        (
            GitHistoryError::UnsupportedAuthorIdentity {
                commit_id: "abc123".to_owned(),
            },
            "commit abc123 has an author name or email that is not valid UTF-8",
        ),
        (
            GitHistoryError::UnsupportedPathEncoding {
                commit_id: "def456".to_owned(),
            },
            "commit def456 changed a path that is not valid UTF-8",
        ),
    ];

    for (source, expected) in cases {
        assert!(
            HotspotsCommandError::from(source)
                .message()
                .starts_with(expected),
            "expected hotspots Git error to start with '{expected}'"
        );
    }
}

fn text_file(path: &str) -> FileRecord {
    FileRecord {
        path: path.to_owned(),
        byte_size: Some(16),
        extension: file_extension(path),
        language: None,
        line_count: None,
        is_vendor: false,
        is_generated: false,
        content: ContentKind::Text,
        is_symlink: false,
        classification: "implemented",
        warnings: Vec::new(),
    }
}

#[test]
fn explain_path_error_messages_cover_empty_and_unsupported_encoding() {
    let files = vec![text_file("src/lib.rs")];
    let empty_error = normalize_explain_file_path(&places("/repo", "/repo"), &native(""), &files)
        .expect_err("empty explain path should fail before matching scan records");

    assert_eq!(empty_error, ExplainPathError::EmptyPath);
    assert_eq!(
        empty_error.message(),
        "explain requires a non-empty file path"
    );

    let mut component = native("src");
    component.parts = vec![PathPart::Name(vec![b'f', 0x80, b'o'])];
    let encoding_error =
        normalize_explain_file_path(&places("/repo", "/repo"), &component, &files)
            .expect_err("non-UTF-8 path component should fail");

    assert_eq!(encoding_error, ExplainPathError::UnsupportedPathEncoding);
    assert_eq!(
        encoding_error.message(),
        "requested path is not valid UTF-8 and cannot be rendered as a portable repository-relative path"
    );
}

#[test]
fn explain_paths_are_matched_with_scanned_files() {
    let files = vec![text_file("src/lib.rs"), text_file("lib.rs")];

    assert_eq!(
        normalize_explain_file_path(&places("/repo/src", "/repo"), &native("lib.rs"), &files),
        Err(ExplainPathError::AmbiguousPath {
            first: "lib.rs".to_owned(),
            second: "src/lib.rs".to_owned(),
        })
    );
    assert_eq!(
        normalize_explain_file_path(
            &places("/repo", "/repo"),
            &native("src/../src/lib.rs"),
            &files
        ),
        Ok("src/lib.rs".to_owned())
    );
    assert_eq!(
        normalize_explain_file_path(&places("/repo", "/repo"), &native("src/other.rs"), &files),
        Err(ExplainPathError::NotCurrentFile)
    );
    assert_eq!(
        normalize_explain_file_path(&places("/repo", "/repo"), &native("../other.rs"), &files),
        Err(ExplainPathError::PathOutsideRepository)
    );
}

#[test]
fn explain_paths_may_lie_on_a_drive() {
    let files = vec![text_file("src/lib.rs")];
    let places = RequestPlaces {
        current: Some(on_drive(b'C', &["repo", "src"])),
        root: Some(on_drive(b'C', &["repo"])),
    };
    let lib = Ok("src/lib.rs".to_owned());
    let outside = Err(ExplainPathError::PathOutsideRepository);

    for (requested, expected) in [
        (native("lib.rs"), &lib),
        (native("src/lib.rs"), &lib),
        (given_on_drive(b'C', r"C:\repo\src\lib.rs", &["repo", "src", "lib.rs"]), &lib),
        (
            given_on_drive(b'C', r"C:\..\repo\src\lib.rs", &["..", "repo", "src", "lib.rs"]),
            &lib,
        ),
        (given_on_drive(b'D', r"D:\repo\src\lib.rs", &["repo", "src", "lib.rs"]), &outside),
    ] {
        assert_eq!(
            &normalize_explain_file_path(&places, &requested, &files),
            expected,
            "{}",
            requested.text
        );
    }
    let rooted = NativePath {
        absolute: false,
        prefix: Vec::new(),
        ..given_on_drive(b'C', r"\repo\src\lib.rs", &["repo", "src", "lib.rs"])
    };
    assert_eq!(normalize_explain_file_path(&places, &rooted, &files), lib);
}

#[test]
fn messages_do_not_show_the_index_path() {
    for (path, cause) in [
        ("/a/.hotpath/index.db", sqlite_error()),
        ("/b/c/.hotpath/index.db", "disk I/O error".to_owned()),
    ] {
        let error = HotspotsCommandError::PersistScan(IndexError::ReadIndex {
            path: path.to_owned(),
            message: cause,
        });
        assert_eq!(
            error.message(),
            "failed to persist scan results in local Hotpath index (.hotpath/index.db): could not read .hotpath/index.db; inspect the index with `hotpath doctor`"
        );
    }
}

#[test]
fn scan_errors_name_their_cause() {
    assert_eq!(
        ScanError::CurrentDir("denied".to_owned()).message(),
        "failed to determine the current directory: denied"
    );
    assert!(ScanError::RootNotDirectory {
        path: "/repo/file".to_owned(),
    }
    .message()
    .contains("/repo/file"));
    assert!(DoctorError::CurrentDir("denied".to_owned())
        .message()
        .contains("denied"));
}

#[test]
fn the_doctor_reports_the_index() {
    let missing = doctor_repository("/repo", "/repo/.hotpath/index.db", None);
    let present = doctor_repository("/repo", "/repo/.hotpath/index.db", Some(3));

    assert_eq!(
        missing,
        "Hotpath doctor\nindex path: .hotpath/index.db\nschema version: none\nreadable: no\nhealth: missing"
    );
    assert_eq!(
        present,
        "Hotpath doctor\nindex path: .hotpath/index.db\nschema version: 3\nreadable: yes\nhealth: healthy"
    );
    assert!(doctor_repository("/repo", "/other/../repo/index.db", None)
        .contains("index path: /other/../repo/index.db\n"));
}
