use std::collections::BTreeSet;
use std::path::{Component, Path, PathBuf};

use hotpath::complexity::report_from_parse;
use hotpath::measure;
use hotpath::operation_log::{log_file_name, logs_to_remove, LogBudget, LogDecision};
use hotpath::parse::report::{
    parse_file_from_scan, parse_progress, report_from_scan, SourceRead,
};
use hotpath::paths::join_path;
use hotpath::paths::native::{
    lexically_normalize, normalize_from, path_to_index_string, strip_root, NativePath, NormalPath,
    PathPart,
};
use hotpath::scan::file_extension;
use hotpath::scan::walk::report_of_walk;
use hotpath::syntax::SupportedLanguage;
use hotpath::{
    estimate_context, fan_metrics, parse_budget_tokens, resolve_dependencies, ContentKind,
    ContextOptions, FileRecord, ParseFileStatus, ScanReport,
};

fn native(text: &str) -> NativePath {
    let path = Path::new(text);
    NativePath {
        text: text.to_owned(),
        prefix: Vec::new(),
        rooted: path.has_root(),
        absolute: path.is_absolute(),
        parts: path
            .components()
            .filter_map(|component| match component {
                Component::ParentDir => Some(PathPart::Parent),
                Component::Normal(name) => Some(PathPart::Name(name.as_encoded_bytes().to_vec())),
                _ => None,
            })
            .collect(),
    }
}

fn text_of(path: &NormalPath) -> String {
    format!(
        "{}{}",
        if path.rooted { "/" } else { "" },
        path_to_index_string(path)
    )
}

fn record(path: &str, language: Option<&'static str>, content: ContentKind) -> FileRecord {
    FileRecord {
        path: path.to_owned(),
        byte_size: Some(path.len() as u64),
        extension: None,
        language,
        line_count: None,
        is_vendor: path.starts_with("vendor"),
        is_generated: path.starts_with("gen"),
        content,
        is_symlink: false,
        classification: "implemented",
        warnings: Vec::new(),
    }
}

fn sources() -> Vec<(FileRecord, &'static str)> {
    let rust = |path| record(path, Some("Rust"), ContentKind::Text);
    vec![
        (
            rust("src/lib.rs"),
            "mod a;\nmod b;\npub fn top() { if true { inner(); } }\n",
        ),
        (rust("src/a.rs"), "use crate::b;\nfn one() {}\nfn two() {}\n"),
        (rust("src/b.rs"), "use crate::a;\nuse crate::a::one;\nstruct S;\n"),
        (record("gen/x.bin", None, ContentKind::Binary), ""),
        (record("vendor/y", None, ContentKind::Unknown), ""),
        (record("docs/z.md", Some("Markdown"), ContentKind::Text), ""),
    ]
}

fn scan_of(files: Vec<FileRecord>) -> ScanReport {
    report_of_walk(Vec::new(), files)
}

#[test]
fn report_ignores_the_walk() {
    let files: Vec<FileRecord> = sources().into_iter().map(|(file, _)| file).collect();
    let mut backwards = files.clone();
    backwards.reverse();

    assert_eq!(scan_of(files), scan_of(backwards));
}

#[test]
fn kinds_and_statuses_add_up() {
    let scan = scan_of(sources().into_iter().map(|(file, _)| file).collect());
    let summary = scan.summary();
    assert_eq!(
        summary.content.text_files + summary.content.binary_files + summary.content.unknown_files,
        summary.total_files
    );
    assert_eq!(
        (
            summary.content.text_files,
            summary.content.binary_files,
            summary.content.unknown_files
        ),
        (4, 1, 1)
    );

    let outputs: Vec<_> = scan
        .files
        .iter()
        .map(|file| {
            let (_, source) = sources()
                .into_iter()
                .find(|(other, _)| other.path == file.path)
                .expect("every file has a source");
            parse_file_from_scan(file, &SourceRead::Text(source.to_owned()))
        })
        .collect();
    let progress = parse_progress(&scan, &outputs);
    assert_eq!(progress.len(), 3);
    assert!(progress
        .iter()
        .enumerate()
        .all(|(index, step)| step.completed_files == index + 1 && step.total_files == 3));
    assert!(outputs
        .iter()
        .all(|output| output.file.symbol_count == output.symbols.len() as u64));

    let report = report_from_scan(&scan, outputs);
    let parsed = report.summary();
    assert_eq!(
        parsed.parsed_files + parsed.pending_files + parsed.skipped_files,
        parsed.total_files
    );
    assert_eq!(
        report.files.iter().map(|file| file.symbol_count).sum::<u64>(),
        report.symbols.len() as u64
    );

    let complexity = report_from_parse(&report);
    assert_eq!(
        complexity
            .files
            .iter()
            .map(|file| file.function_method_count)
            .sum::<u64>(),
        complexity.summary.function_method_count
    );
    assert_eq!(complexity.summary.function_method_count, 3);

    let edges = resolve_dependencies(&report);
    assert_eq!(edges.len(), 4);
    let keys: Vec<_> = edges
        .iter()
        .map(|edge| (&edge.source_path, &edge.target_path, &edge.kind))
        .collect();
    assert!(keys.windows(2).all(|pair| pair[0] < pair[1]));
    let known: BTreeSet<&str> = report
        .files
        .iter()
        .filter(|file| file.status == ParseFileStatus::Parsed)
        .map(|file| file.path.as_str())
        .collect();
    assert!(edges.iter().all(|edge| known.contains(edge.source_path.as_str())
        && known.contains(edge.target_path.as_str())));

    let fan = fan_metrics(&report.files, &edges);
    let (fan_in, fan_out) = fan
        .by_path
        .values
        .iter()
        .fold((0, 0), |sum, fan| (sum.0 + fan.fan_in, sum.1 + fan.fan_out));
    assert_eq!(fan_in, fan_out);
    assert_eq!(fan_in, 4);
}

#[test]
fn context_counts_every_file_and_its_groups_add_up() {
    let files: Vec<FileRecord> = sources().into_iter().map(|(file, _)| file).collect();
    let report = estimate_context(&files, ContextOptions::default());
    let summary = &report.summary;

    assert_eq!(summary.included_files + summary.skipped_files, summary.total_files);
    assert_eq!(summary.filtered_generated_files, 0);
    assert_eq!(summary.filtered_vendor_files, 0);
    assert_eq!(
        report.groups.iter().map(|group| group.file_count).sum::<u64>(),
        summary.included_files
    );
    assert_eq!(
        report.groups.iter().map(|group| group.byte_size).sum::<u64>(),
        summary.included_bytes
    );
    assert_eq!(
        report
            .groups
            .iter()
            .map(|group| group.estimated_tokens)
            .sum::<u64>(),
        summary.estimated_tokens
    );

    let mut backwards = files.clone();
    backwards.reverse();
    assert_eq!(estimate_context(&backwards, ContextOptions::default()), report);
}

#[test]
fn budgets_are_read_back() {
    for n in [1u64, 9, 10, 128, 4_096] {
        assert_eq!(parse_budget_tokens(&n.to_string()), Ok(n));
        assert_eq!(parse_budget_tokens(&format!("{n}k")), Ok(n * 1_000));
        assert_eq!(parse_budget_tokens(&format!("{n}m")), Ok(n * 1_000_000));
    }
}

#[test]
fn bits_are_ordered_as_numbers_are() {
    let numbers = [
        0.0,
        -0.0,
        1.0,
        -1.0,
        0.1,
        0.6,
        -2.5,
        f64::MIN_POSITIVE,
        f64::MAX,
        f64::MIN,
        f64::INFINITY,
        f64::NEG_INFINITY,
        f64::NAN,
        -f64::NAN,
    ];
    for a in numbers {
        for b in numbers {
            let (x, y) = (a.to_bits(), b.to_bits());
            assert_eq!(measure::less(x, y), a < b, "{a} < {b}");
            assert_eq!(measure::at_least(x, y), a >= b, "{a} >= {b}");
            assert_eq!(
                measure::total_rank(x).cmp(&measure::total_rank(y)),
                a.total_cmp(&b)
            );
            if !a.is_nan() && !b.is_nan() {
                assert_eq!(Some(measure::rank(x).cmp(&measure::rank(y))), a.partial_cmp(&b));
            }
        }
    }
}

#[test]
fn later_logs_sort_later_and_the_latest_stay() {
    let names: Vec<String> = [999, 1_000, 9_999_999_999_999u128]
        .into_iter()
        .map(|moment| log_file_name(moment, 7))
        .collect();
    let mut sorted = names.clone();
    sorted.sort();

    assert_eq!(names, sorted);
    assert_eq!(logs_to_remove(&names, 1), names[..2].to_vec());
    assert!(logs_to_remove(&names, 3).is_empty());
}

#[test]
fn a_notice_is_due_once() {
    let mut budget = LogBudget::new(10);

    assert_eq!(budget.admit_event(6), LogDecision::Write);
    budget.record_written(6);
    assert_eq!(budget.admit_event(5), LogDecision::Notice);
    assert_eq!(budget.admit_event(5), LogDecision::Skip);
    assert_eq!(budget.admit_event(4), LogDecision::Write);
    budget.record_written(4);
    assert_eq!(budget.admit_event(0), LogDecision::Skip);
    assert_eq!(budget.bytes_written, 10);
}

#[test]
fn paths_below_a_root_lead_down() {
    let root = lexically_normalize(&native("/repo/./a"));

    for (path, below) in [
        ("/repo/a/b/../c", Some("c")),
        ("/repo/a", Some("")),
        ("/repo/a/../b", None),
        ("/repo/a/x//y/.", Some("x/y")),
    ] {
        let found = strip_root(&root, &lexically_normalize(&native(path)));
        let found = found.as_ref().map(path_to_index_string);
        assert_eq!(found.as_deref(), below, "{path}");
    }
}

#[test]
fn relative_and_absolute_paths_name_the_same_file() {
    let root = lexically_normalize(&native("/repo"));
    let base = lexically_normalize(&native("/elsewhere"));
    let relative = normalize_from(&root, &native("src/a.rs"));
    let absolute = normalize_from(&base, &native("/repo/src/a.rs"));

    assert_eq!(relative, absolute);
    assert_eq!(
        strip_root(&root, &absolute)
            .as_ref()
            .map(path_to_index_string)
            .as_deref(),
        Some("src/a.rs")
    );
}

#[test]
fn languages_have_names() {
    assert_eq!(SupportedLanguage::Rust.name(), "Rust");
    assert_eq!(SupportedLanguage::Go.name(), "Go");
    assert_eq!(SupportedLanguage::TypeScript.name(), "TypeScript");
    assert_eq!(SupportedLanguage::Tsx.name(), "Tsx");
}

#[test]
fn paths_are_taken_apart_as_std_does() {
    let samples = [
        "", ".", "..", "/", "//", "a", "a/", "a//b", "./a", "a/.", "a/..", "../a", "a/../b", "/a",
        "/a/b/", ".rs", "a.rs", "a.", ".a.rs", "a.b.RS", "x/.rs", "x/a.rs/", "x/..", "a b/c.d e",
        "Makefile", "d/Dockerfile", "\u{e9}/\u{fc}.Go", "a/./b.tsx", "a..", "..a", "x/...",
    ];
    for sample in samples {
        let path = Path::new(sample);
        assert_eq!(
            file_extension(sample),
            path.extension()
                .and_then(|extension| extension.to_str())
                .map(str::to_ascii_lowercase),
            "{sample}"
        );
        let mut normal = PathBuf::new();
        for component in path.components() {
            match component {
                Component::CurDir => {}
                Component::ParentDir => {
                    normal.pop();
                }
                other => normal.push(other.as_os_str()),
            }
        }
        let mine = lexically_normalize(&native(sample));
        assert_eq!(Path::new(&text_of(&mine)), normal, "{sample}");
        for other in samples {
            assert_eq!(
                join_path(sample, other, '/'),
                path.join(other).to_string_lossy(),
                "{sample} {other}"
            );
            let base = lexically_normalize(&native(other));
            let joined = Path::new(&text_of(&base)).join(sample);
            assert_eq!(
                normalize_from(&base, &native(sample)),
                lexically_normalize(&native(&joined.to_string_lossy())),
                "{sample} from {other}"
            );
            assert_eq!(
                strip_root(&base, &mine).map(|below| text_of(&below)),
                normal
                    .strip_prefix(text_of(&base))
                    .ok()
                    .map(|below| below.to_string_lossy().into_owned()),
                "{sample} below {other}"
            );
        }
    }
}
