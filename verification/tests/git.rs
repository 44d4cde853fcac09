use hotpath::git::history::split_commit_ids_for_workers;
use hotpath::git::stream::{parse_git_stream_record, GIT_RECORD_SEPARATOR};
use hotpath::git::{GitChangeKind, GitHistoryError};

#[test]
fn stream_parser_joins_raw_status_and_numstat_rows() {
    let record = stream_record(
        "abc",
        "100",
        "Ada",
        "ada@example.invalid",
        "parent",
        [
            b":000000 100644 0000000 1111111 A".as_slice(),
            b"src/lib.rs",
            b"3\t0\tsrc/lib.rs",
        ],
    );

    let parsed = parse_git_stream_record(&record).expect("record should parse");

    assert_eq!(parsed.commit_id, "abc");
    assert_eq!(parsed.raw_records, 1);
    assert_eq!(parsed.numstat_records, 1);
    assert_eq!(parsed.changes.len(), 1);
    assert_eq!(parsed.changes[0].change_kind, GitChangeKind::Added);
    assert_eq!(parsed.changes[0].added_lines, 3);
    assert_eq!(parsed.changes[0].deleted_lines, 0);
    assert_eq!(parsed.changes[0].author, "Ada <ada@example.invalid>");
}

#[test]
fn stream_parser_treats_binary_numstat_counts_as_zero() {
    let record = stream_record(
        "bin",
        "100",
        "Binary",
        "binary@example.invalid",
        "parent",
        [
            b":100644 100644 1111111 2222222 M".as_slice(),
            b"image.bin",
            b"-\t-\timage.bin",
        ],
    );

    let parsed = parse_git_stream_record(&record).expect("record should parse");

    assert_eq!(parsed.changes[0].path, "image.bin");
    assert_eq!(parsed.changes[0].added_lines, 0);
    assert_eq!(parsed.changes[0].deleted_lines, 0);
}

#[test]
fn stream_parser_keeps_tabs_inside_paths_after_numstat_counts() {
    let record = stream_record(
        "tab",
        "100",
        "Tab",
        "tab@example.invalid",
        "parent",
        [
            b":100644 100644 1111111 2222222 M".as_slice(),
            b"src/has\ttab.rs",
            b"1\t2\tsrc/has\ttab.rs",
        ],
    );

    let parsed = parse_git_stream_record(&record).expect("record should parse");

    assert_eq!(parsed.changes[0].path, "src/has\ttab.rs");
    assert_eq!(parsed.changes[0].added_lines, 1);
    assert_eq!(parsed.changes[0].deleted_lines, 2);
}

#[test]
fn stream_parser_rejects_malformed_headers() {
    let error = parse_git_stream_record(&[GIT_RECORD_SEPARATOR, b'a', 0])
        .expect_err("malformed record should fail");

    assert!(matches!(error, GitHistoryError::MalformedGitStream { .. }));
}

#[test]
fn stream_worker_chunks_are_contiguous_and_balanced() {
    let commits = (0..10)
        .map(|index| format!("commit-{index}"))
        .collect::<Vec<_>>();

    let chunks = split_commit_ids_for_workers(&commits, 3);

    assert_eq!(
        chunks[0],
        vec!["commit-0", "commit-1", "commit-2", "commit-3"]
    );
    assert_eq!(chunks[1], vec!["commit-4", "commit-5", "commit-6"]);
    assert_eq!(chunks[2], vec!["commit-7", "commit-8", "commit-9"]);
    assert_eq!(chunks.into_iter().flatten().collect::<Vec<_>>(), commits);
}

fn stream_record<const N: usize>(
    commit_id: &str,
    commit_time: &str,
    author_name: &str,
    author_email: &str,
    parents: &str,
    body_tokens: [&[u8]; N],
) -> Vec<u8> {
    let mut record = Vec::new();
    record.push(GIT_RECORD_SEPARATOR);
    for field in [commit_id, commit_time, author_name, author_email, parents] {
        record.extend_from_slice(field.as_bytes());
        record.push(0);
    }
    record.push(0);
    for token in body_tokens {
        record.extend_from_slice(token);
        record.push(0);
    }
    record
}
