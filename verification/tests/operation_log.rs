use hotpath::index_lock::{
    index_directory_of, lock_path_of, lock_payload, IndexLock, IndexLockError, LockAttempt,
};
use hotpath::operation_log::{
    log_file_name, logs_dir, logs_to_remove, LogBudget, LogDecision, DEFAULT_MAX_BYTES,
    DEFAULT_RETAIN_LOGS,
};

#[test]
fn prune_logs_keeps_latest_stable_names() {
    let mut names = (0..25)
        .map(|index| log_file_name(index, 1))
        .collect::<Vec<_>>();
    names.reverse();
    names.push("other.jsonl".to_owned());
    names.push("hotpath-notes.txt".to_owned());

    let removed = logs_to_remove(&names, 20);
    let mut kept = names
        .iter()
        .filter(|name| name.starts_with("hotpath-") && name.ends_with(".jsonl"))
        .filter(|name| !removed.contains(name))
        .cloned()
        .collect::<Vec<_>>();
    kept.sort();

    assert_eq!(removed.len(), 5);
    assert_eq!(kept.len(), 20);
    assert_eq!(kept[0], log_file_name(5, 1));
    assert_eq!(kept[19], log_file_name(24, 1));
    assert!(logs_to_remove(&names, DEFAULT_RETAIN_LOGS + 5).is_empty());
}

#[test]
fn logger_caps_file_size_without_panicking() {
    let mut budget = LogBudget::new(256);
    let mut size = 0u64;
    let mut notices = 0;

    for _ in 0..20 {
        match budget.admit_event(100) {
            LogDecision::Write => {
                size += 100;
                budget.record_written(100);
            }
            LogDecision::Notice => {
                notices += 1;
                if budget.has_room(40) {
                    size += 40;
                    budget.record_written(40);
                }
            }
            LogDecision::Skip => {}
        }
    }

    assert_eq!(size, 240);
    assert_eq!(budget.bytes_written, size);
    assert!(size <= 256, "log exceeded cap: {size}");
    assert_eq!(notices, 1);
    assert!(budget.truncated);
    assert!(LogBudget::new(DEFAULT_MAX_BYTES).has_room(10 * 1024 * 1024));
    assert_eq!(LogBudget::new(0).admit_event(0), LogDecision::Notice);
}

#[test]
fn log_names_hold_their_moment_and_process() {
    assert_eq!(
        log_file_name(1_700_000_000_123, 42),
        "hotpath-1700000000123-42.jsonl"
    );
    assert_eq!(log_file_name(7, 4_294_967_295), "hotpath-0000000000007-4294967295.jsonl");
    assert_eq!(
        log_file_name(u128::MAX, 0),
        "hotpath-340282366920938463463374607431768211455-0.jsonl"
    );
    assert!(log_file_name(999, 9) < log_file_name(1000, 1));
}

#[test]
fn logs_lie_below_the_repository() {
    assert_eq!(logs_dir("/repo", '/'), "/repo/.hotpath/logs");
    assert_eq!(logs_dir("/repo/", '/'), "/repo/.hotpath/logs");
    assert_eq!(logs_dir("", '/'), ".hotpath/logs");
}

#[test]
fn a_lock_is_held_once_its_file_is_written() {
    let lock = IndexLock::acquire("/repo", '/', LockAttempt::Written).expect("lock should be held");

    assert_eq!(lock.path(), "/repo/.hotpath/index.lock");
    let further = IndexLock::acquire("/repo", '/', LockAttempt::FileExists);
    assert_eq!(
        further.expect_err("the lock is held"),
        IndexLockError::AlreadyLocked {
            path: lock.path().to_owned()
        }
    );
    assert_eq!(index_directory_of("/repo", '/'), "/repo/.hotpath");
    assert_eq!(lock_path_of(".", '/'), "./.hotpath/index.lock");
    assert_eq!(
        lock_path_of(r"C:\repo", '\\'),
        r"C:\repo\.hotpath\index.lock"
    );
    assert_eq!(logs_dir(r"C:\repo\", '\\'), r"C:\repo\.hotpath/logs");
    assert_eq!(lock_payload(12, "scan"), "pid=12\ncommand=scan\n");
}

#[test]
fn lock_errors_name_their_file() {
    let denied = || "denied".to_owned();
    let cases = [
        (
            LockAttempt::DirectoryFailed { message: denied() },
            "failed to create Hotpath index directory '/repo/.hotpath': denied",
        ),
        (
            LockAttempt::FileExists,
            "another Hotpath process is using the index lock '/repo/.hotpath/index.lock'. Retry after it exits; remove .hotpath/index.lock only if no Hotpath process is running.",
        ),
        (
            LockAttempt::FileFailed { message: denied() },
            "failed to create Hotpath index lock '/repo/.hotpath/index.lock': denied",
        ),
        (
            LockAttempt::WriteFailed { message: denied() },
            "failed to write Hotpath index lock '/repo/.hotpath/index.lock': denied",
        ),
    ];

    for (attempt, expected) in cases {
        let error: IndexLockError =
            IndexLock::acquire("/repo", '/', attempt).expect_err("lock should not be held");
        assert_eq!(error.message(), expected);
    }
}
