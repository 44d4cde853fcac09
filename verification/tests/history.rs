use hotpath::git::engine::{
    accept_history, commit_request, lookup_batches, reachable_commit_ids, stream_outcome,
    workers_outcome, worktree_root_at, CommandOutput, GitHistoryProgress, HeadLookup,
    HistoryCollector, RepositoryLookup, StreamedGitCommit, GIT_CACHE_LOOKUP_BATCH_SIZE,
    GIT_COMMIT_CACHE_WRITE_BATCH_SIZE,
};
use hotpath::git::history::{
    file_changes_from_head, git_perf_enabled, git_stream_worker_count, sanitize_git_stderr,
    split_commit_ids_for_workers, summarize_stderr,
};
use hotpath::git::stream::{
    drain_complete_git_records, drain_final_git_record, parse_git_stream_record, StreamWorker,
    GIT_RECORD_SEPARATOR,
};
use hotpath::git::{GitChangeKind, GitFileChange, GitHistoryError};
use hotpath::table::TextMap;

fn change(commit_id: &str, time: i64, path: &str) -> GitFileChange {
    GitFileChange {
        commit_id: commit_id.to_owned(),
        parent_count: 1,
        is_merge: false,
        author: "Ada <ada@example.invalid>".to_owned(),
        commit_time: time,
        path: path.to_owned(),
        change_kind: GitChangeKind::Modified,
        added_lines: 1,
        deleted_lines: 0,
    }
}

fn streamed(commit_id: &str, time: i64) -> StreamedGitCommit {
    StreamedGitCommit {
        commit_id: commit_id.to_owned(),
        changes: vec![change(commit_id, time, "b.rs"), change(commit_id, time, "a.rs")],
    }
}

fn record_bytes(commit_id: &str, path: &str) -> Vec<u8> {
    let mut record = vec![GIT_RECORD_SEPARATOR];
    for field in [commit_id, "100", "Ada", "ada@example.invalid", "parent"] {
        record.extend_from_slice(field.as_bytes());
        record.push(0);
    }
    record.push(0);
    let numstat = format!("3\t1\t{path}");
    for token in [":100644 100644 1111111 2222222 M", path, &numstat] {
        record.extend_from_slice(token.as_bytes());
        record.push(0);
    }
    record
}

fn head() -> HeadLookup {
    HeadLookup::Commit {
        id: "h1".to_owned(),
        time: 100,
    }
}

#[test]
fn a_history_starts_at_the_head_of_a_worktree() {
    let lookup = RepositoryLookup::Found {
        shallow: false,
        head: head(),
        worktree_root: Some("/repo/".to_owned()),
    };

    assert_eq!(worktree_root_at("/repo/src", lookup.clone()), Ok("/repo/".to_owned()));
    let start = accept_history("/repo/src", lookup).expect("history should start");
    assert_eq!(start.commit_id, "h1");
    assert_eq!(start.commit_time, 100);
}

#[test]
fn repositories_without_a_usable_history_are_told_apart() {
    let denied = || "denied".to_owned();
    let path = || "/repo".to_owned();
    let failed = |missing, no_repository| RepositoryLookup::Failed {
        missing,
        no_repository,
        message: denied(),
    };
    let found = |shallow, head, worktree_root| RepositoryLookup::Found {
        shallow,
        head,
        worktree_root,
    };
    let fault = |lookup| accept_history("/repo", lookup).expect_err("there is no history");

    assert_eq!(
        fault(failed(true, false)),
        GitHistoryError::NotRepository {
            path: path(),
            source: denied()
        }
    );
    assert_eq!(
        fault(failed(false, true)),
        GitHistoryError::NotRepository {
            path: path(),
            source: denied()
        }
    );
    assert_eq!(
        fault(failed(false, false)),
        GitHistoryError::OpenRepository {
            path: path(),
            source: denied()
        }
    );
    assert_eq!(
        fault(found(true, head(), None)),
        GitHistoryError::ShallowRepository { path: path() }
    );
    assert_eq!(
        fault(found(false, head(), None)),
        GitHistoryError::BareRepository { path: path() }
    );
    let unreadable = |unborn, missing| HeadLookup::ReadFailed {
        unborn,
        missing,
        message: denied(),
    };
    assert_eq!(
        fault(found(false, unreadable(true, false), None)),
        GitHistoryError::MissingHead { path: path() }
    );
    assert_eq!(
        fault(found(false, unreadable(false, true), None)),
        GitHistoryError::MissingHead { path: path() }
    );
    assert_eq!(
        fault(found(false, unreadable(false, false), None)),
        GitHistoryError::Git {
            context: "reading HEAD",
            source: denied()
        }
    );
    assert_eq!(
        fault(found(
            false,
            HeadLookup::NotCommit { message: denied() },
            Some(path())
        )),
        GitHistoryError::HeadNotCommit {
            path: path(),
            source: denied()
        }
    );
}

#[test]
fn listed_commits_are_read_line_by_line() {
    let output = |success, stdout: &[u8]| CommandOutput {
        success,
        code: Some(128),
        stdout: stdout.to_vec(),
        stderr: b"fatal: bad\nrevision \xff\n".to_vec(),
    };

    assert_eq!(
        reachable_commit_ids(&output(true, b"c1\n\n  c2 \r\n")),
        Ok(vec!["c1".to_owned(), "c2".to_owned()])
    );
    assert!(matches!(
        reachable_commit_ids(&output(true, b"c1\n\xff")),
        Err(GitHistoryError::MalformedGitStream { detail, .. })
            if detail.starts_with("rev-list output is not UTF-8: invalid utf-8 sequence")
    ));
    assert_eq!(
        reachable_commit_ids(&output(false, b"c1\n")),
        Err(GitHistoryError::GitCommandFailed {
            context: "listing reachable commits",
            status: Some(128),
            stderr: "fatal: bad revision \u{fffd}".to_owned(),
        })
    );
}

#[test]
fn what_git_prints_as_an_error_is_kept_short() {
    assert_eq!(summarize_stderr("  \n "), "no stderr output");
    assert_eq!(summarize_stderr("1\n2\n3\n4\n5\n6"), "1 2 3 4 5");
    assert_eq!(sanitize_git_stderr(b"fatal: \xff"), "fatal: \u{fffd}");
}

#[test]
fn commits_are_asked_for_line_by_line() {
    assert_eq!(commit_request(&Vec::new()), "");
    assert_eq!(commit_request(&vec!["c1".to_owned(), "c2".to_owned()]), "c1\nc2\n");
}

#[test]
fn the_first_failure_of_a_worker_counts() {
    let first = GitHistoryError::WorkerFailed { context: "first" };
    let second = GitHistoryError::WorkerFailed { context: "second" };

    assert_eq!(workers_outcome(vec![first.clone(), second], true), Err(first));
    assert_eq!(
        workers_outcome(Vec::new(), true),
        Err(GitHistoryError::WorkerFailed {
            context: "streaming Git history"
        })
    );
    assert_eq!(workers_outcome(Vec::new(), false), Ok(()));
    assert_eq!(stream_outcome(true, Some(0), b"warning"), Ok(()));
    assert_eq!(
        stream_outcome(false, None, b" fatal\nmore \n"),
        Err(GitHistoryError::GitCommandFailed {
            context: "streaming Git history",
            status: None,
            stderr: "fatal\nmore".to_owned(),
        })
    );
}

#[test]
fn lookups_come_in_batches() {
    let ids = (0..GIT_CACHE_LOOKUP_BATCH_SIZE + 1)
        .map(|index| format!("c{index}"))
        .collect::<Vec<_>>();

    let batches = lookup_batches(&ids);

    assert_eq!(batches.len(), 2);
    assert_eq!(batches[0].len(), GIT_CACHE_LOOKUP_BATCH_SIZE);
    assert_eq!(batches[1], vec!["c1024"]);
    assert_eq!(batches.concat(), ids);
    assert!(lookup_batches(&Vec::new()).is_empty());
}

fn collect(ids: &[&str], cached_ids: &[&str]) -> (Vec<GitFileChange>, usize) {
    let ids = ids.iter().map(|id| id.to_string()).collect::<Vec<_>>();
    let mut collector = HistoryCollector::new(ids.len());
    let mut reported = 0;
    for batch in lookup_batches(&ids) {
        let mut cached = TextMap::new();
        for id in cached_ids {
            cached.insert(id, streamed(id, 10).changes);
        }
        reported += collector.absorb_cached(&batch, cached).len();
    }
    let mut missing = collector.missing.clone();
    missing.reverse();
    for id in missing {
        let (progress, batch) = collector.absorb_streamed(streamed(&id, 10));
        reported += 1;
        assert_eq!(
            progress,
            GitHistoryProgress {
                completed_commits: reported,
                total_commits: ids.len(),
            }
        );
        assert!(batch.is_none());
    }
    let written = collector.pending.len();
    let history = collector.finish();
    assert_eq!(history.writes.len(), written);
    assert_eq!(reported, ids.len());
    (history.changes, written)
}

#[test]
fn history_does_not_depend_on_the_cache() {
    let ids = ["c3", "c1", "c2"];
    let (unread, all_written) = collect(&ids, &[]);
    let (partly, some_written) = collect(&ids, &["c1", "other"]);
    let (cached, none_written) = collect(&ids, &["c1", "c2", "c3"]);

    assert_eq!(unread, partly);
    assert_eq!(unread, cached);
    assert_eq!((all_written, some_written, none_written), (3, 2, 0));
    let keys: Vec<(&str, &str)> = unread
        .iter()
        .map(|change| (change.commit_id.as_str(), change.path.as_str()))
        .collect();
    assert_eq!(
        keys,
        vec![
            ("c1", "a.rs"),
            ("c1", "b.rs"),
            ("c2", "a.rs"),
            ("c2", "b.rs"),
            ("c3", "a.rs"),
            ("c3", "b.rs"),
        ]
    );
}

#[test]
fn read_commits_are_cached_once() {
    let total = GIT_COMMIT_CACHE_WRITE_BATCH_SIZE + 3;
    let mut collector = HistoryCollector::new(total);
    let mut written = Vec::new();
    let mut flushes = 0;
    for index in 0..total {
        let (_, batch) = collector.absorb_streamed(streamed(&format!("c{index}"), 10));
        if let Some(batch) = batch {
            flushes += 1;
            assert_eq!(batch.len(), GIT_COMMIT_CACHE_WRITE_BATCH_SIZE);
            written.extend(batch);
        }
    }
    assert_eq!(collector.completed, total);
    let history = collector.finish();
    written.extend(history.writes);

    assert_eq!(flushes, 1);
    assert_eq!(written.len(), total);
    assert!(written
        .iter()
        .enumerate()
        .all(|(index, commit)| commit.commit_id == format!("c{index}")));
    assert_eq!(history.changes.len(), 2 * total);
}

#[test]
fn reads_yield_the_stream() {
    let mut stream = b"noise".to_vec();
    for name in ["c1", "c2", "c3"] {
        stream.extend(record_bytes(name, &format!("src/{name}.rs")));
    }

    for size in [1, 2, 7, 64, 4096] {
        let mut worker = StreamWorker::new();
        let mut seen = Vec::new();
        for part in stream.chunks(size) {
            let drained = worker.feed(part);
            assert!(drained.error.is_none());
            seen.extend(drained.records.into_iter().map(|record| record.commit_id));
        }
        let last = worker.finish().expect("last record should parse");
        seen.extend(last.into_iter().map(|record| record.commit_id));
        assert_eq!(seen, vec!["c1", "c2", "c3"], "reads of {size}");
    }
}

#[test]
fn faulty_records_stop_the_stream() {
    let mut buffer = record_bytes("c1", "src/lib.rs");
    buffer.extend([GIT_RECORD_SEPARATOR, b'x']);
    buffer.extend(record_bytes("c2", "src/lib.rs"));

    let drained = drain_complete_git_records(&mut buffer);

    assert_eq!(drained.records.len(), 1);
    assert_eq!(buffer, record_bytes("c2", "src/lib.rs"));
    assert!(matches!(
        drained.error,
        Some(GitHistoryError::MalformedGitStream { .. })
    ));
    assert_eq!(drain_final_git_record(&mut b"noise".to_vec()), Ok(None));
    let mut name = record_bytes("c1", "src/lib.rs");
    let at = name.iter().position(|byte| *byte == b'A').expect("a name");
    name[at] = 0xff;
    assert!(matches!(
        parse_git_stream_record(&name),
        Err(GitHistoryError::UnsupportedAuthorIdentity { commit_id }) if commit_id == "c1"
    ));
    let mut path = record_bytes("c1", "src/lib.rs");
    for at in 0..path.len() {
        if path[at..].starts_with(b"src") {
            path[at] = 0xff;
        }
    }
    assert!(matches!(
        parse_git_stream_record(&path),
        Err(GitHistoryError::UnsupportedPathEncoding { commit_id }) if commit_id == "c1"
    ));
}

#[test]
fn changes_to_the_index_are_left_out() {
    let parsed = parse_git_stream_record(&record_bytes("c1", ".hotpath/index.sqlite"))
        .expect("record should parse");

    assert!(parsed.changes.is_empty());
}

#[test]
fn history_ignores_arrival() {
    let changes = vec![change("c2", 5, "a"), change("c1", 5, "b"), change("c9", 1, "z")];
    let mut reversed = changes.clone();
    reversed.reverse();

    let sorted = file_changes_from_head(changes);

    assert_eq!(sorted, file_changes_from_head(reversed));
    assert_eq!(sorted[0].commit_id, "c9");
    assert_eq!(sorted[1].commit_id, "c1");
}

#[test]
fn workers_are_no_more_than_commits() {
    let ids = |count: usize| (0..count).map(|id| id.to_string()).collect::<Vec<_>>();

    assert_eq!(split_commit_ids_for_workers(&ids(2), 8).len(), 2);
    assert_eq!(split_commit_ids_for_workers(&ids(2), 0).len(), 1);
    assert_eq!(split_commit_ids_for_workers(&ids(0), 4), vec![Vec::<String>::new()]);
    assert_eq!(git_stream_worker_count(Some(" 6 "), 2), 6);
    assert_eq!(git_stream_worker_count(Some("0"), 2), 2);
    assert_eq!(git_stream_worker_count(Some("many"), 2), 2);
    assert_eq!(git_stream_worker_count(None, 2), 2);
    assert!(git_perf_enabled(" Yes "));
    assert!(git_perf_enabled("1"));
    assert!(!git_perf_enabled("no"));
}
