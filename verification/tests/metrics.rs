use std::path::{Component, Path};

use hotpath::git::cochange::{co_changed_file_counts_from_changes, co_changes_from_changes};
use hotpath::git::engine::{
    analyze_from_head_at, explain_file_from_head, explain_file_from_head_at, HistoryHead,
};
use hotpath::git::errors::{git_history_error_message, GitHistoryUsage};
use hotpath::git::explain::{
    explain_file_from_analysis_at, normalize_requested_file_path, short_commit_id,
};
use hotpath::git::metrics::file_metrics_from_changes_with_ownership;
use hotpath::git::{
    GitAnalysis, GitChangeKind, GitCoChange, GitExplainError, GitFileChange, GitHistoryError,
};
use hotpath::measure::Real;
use hotpath::ownership::{
    OperationalFileOwnership, OperationalOwnerShare, OperationalOwnershipSnapshot,
};
use hotpath::paths::native::{lexically_normalize, NativePath, PathPart, RequestPlaces};

fn native(text: &str) -> NativePath {
    let path = Path::new(text);
    NativePath {
        text: text.to_owned(),
        prefix: Vec::new(),
        rooted: path.has_root(),
        absolute: path.is_absolute(),
        parts: path
            .components()
            .filter_map(|component| match component {
                Component::ParentDir => Some(PathPart::Parent),
                Component::Normal(name) => Some(PathPart::Name(name.as_encoded_bytes().to_vec())),
                _ => None,
            })
            .collect(),
    }
}

fn places(current: &str, root: &str) -> RequestPlaces {
    RequestPlaces {
        current: Some(lexically_normalize(&native(current))),
        root: Some(lexically_normalize(&native(root))),
    }
}

const DAY: i64 = 86_400;

fn change(commit_id: &str, author: &str, time: i64, path: &str, added: u64) -> GitFileChange {
    GitFileChange {
        commit_id: commit_id.to_owned(),
        parent_count: 1,
        is_merge: false,
        author: author.to_owned(),
        commit_time: time,
        path: path.to_owned(),
        change_kind: GitChangeKind::Modified,
        added_lines: added,
        deleted_lines: 1,
    }
}

fn history() -> Vec<GitFileChange> {
    vec![
        change("c1", "Ada <a@x>", 0, "src/a.rs", 10),
        change("c1", "Ada <a@x>", 0, "src/b.rs", 5),
        change("c2", "Bob <b@x>", 50 * DAY, "src/a.rs", 3),
        change("c3", "Ada <a@x>", 100 * DAY, "src/a.rs", 2),
        change("c3", "Ada <a@x>", 100 * DAY, "src/b.rs", 1),
        change("c3", "Ada <a@x>", 100 * DAY, "src/c.rs", 1),
    ]
}

fn number(value: f64) -> Real {
    Real {
        bits: value.to_bits(),
        text: format!("{:.2}", value * 100.0),
    }
}

fn ownership() -> OperationalOwnershipSnapshot {
    OperationalOwnershipSnapshot {
        by_file: vec![OperationalFileOwnership {
            path: "src/a.rs".to_owned(),
            owners: vec![OperationalOwnerShare {
                author: "Ada <a@x>".to_owned(),
                meaningful_commits: 2,
                effective_lines: number(12.0),
                score: number(3.0),
                share: number(0.8),
            }],
            others_share: number(0.2),
        }],
    }
}

#[test]
fn metrics_count_commits_churn_and_authors() {
    let metrics = file_metrics_from_changes_with_ownership(&history(), 100 * DAY, &ownership());

    assert_eq!(metrics.len(), 3);
    let a = &metrics[0];
    assert_eq!(a.path, "src/a.rs");
    assert_eq!(a.commits_per_file, 3);
    assert_eq!((a.total_churn_added, a.total_churn_deleted), (15, 3));
    assert_eq!((a.recent_churn_added, a.recent_churn_deleted), (5, 2));
    assert_eq!(a.author_count, 2);
    assert_eq!(a.owner_count, 1);
    assert_eq!(a.dominant_owner.as_deref(), Some("Ada <a@x>"));
    assert_eq!(a.co_changed_file_count, 2);
    assert_eq!(a.first_commit_id.as_deref(), Some("c1"));
    assert_eq!(a.last_commit_id.as_deref(), Some("c3"));
    assert_eq!(a.file_age_days, Some(100));
    let c = &metrics[2];
    assert_eq!(c.path, "src/c.rs");
    assert_eq!(c.owner_count, 0);
    assert_eq!(c.dominant_owner, None);
    assert_eq!(c.file_age_days, Some(0));
}

#[test]
fn co_changes_count_commits_once() {
    let mut changes = history();
    changes.push(change("c1", "Ada <a@x>", 0, "src/a.rs", 1));

    let pairs = co_changes_from_changes(&changes);

    let pair = |left: &str, right: &str, commit_count: u64| GitCoChange {
        left_path: left.to_owned(),
        right_path: right.to_owned(),
        commit_count,
    };
    assert_eq!(
        pairs,
        vec![
            pair("src/a.rs", "src/b.rs", 2),
            pair("src/a.rs", "src/c.rs", 1),
            pair("src/b.rs", "src/c.rs", 1),
        ]
    );
    changes.reverse();
    assert_eq!(co_changes_from_changes(&changes), pairs);
}

#[test]
fn large_commits_have_no_pairs_and_saturate_counts() {
    let changes = (0..101)
        .map(|index| change("bulk", "Ada <a@x>", 0, &format!("f{index}"), 1))
        .collect::<Vec<_>>();

    assert!(co_changes_from_changes(&changes).is_empty());
    assert_eq!(co_changes_from_changes(&changes[1..]).len(), 100 * 99 / 2);
    let counts = co_changed_file_counts_from_changes(&changes);
    assert_eq!(counts.get("f0"), Some(&25));
    let few = co_changed_file_counts_from_changes(&changes[..3]);
    assert_eq!(few.get("f0"), Some(&2));
}

fn analysis() -> GitAnalysis {
    analyze_from_head_at(
        HistoryHead {
            worktree_root: "/repo".to_owned(),
            commit_id: "c3".to_owned(),
            commit_time: 100 * DAY,
        },
        history(),
        ownership(),
    )
}

#[test]
fn an_analysis_holds_what_is_derived_from_a_history() {
    let analysis = analysis();

    assert_eq!(analysis.recent_window_days, 90);
    assert_eq!(analysis.head_commit_id, "c3");
    assert_eq!(analysis.changes, history());
    assert_eq!(analysis.file_metrics.len(), 3);
    assert_eq!(analysis.co_changes.len(), 3);
}

#[test]
fn files_are_explained_by_their_history() {
    let text = explain_file_from_head_at(Ok(analysis()), &places("/repo/src", "/repo"), &native("a.rs"), &[])
        .expect("file should be explained");

    assert!(text.contains("src/a.rs"));
    assert!(text.contains("\n  commits per file: 3\n  total churn: 15 added, 3 deleted, 18 combined"));
    assert!(text.contains("src/b.rs"));
    assert_eq!(
        explain_file_from_head(Ok(analysis()), &places("/repo/src", "/repo"), &native("a.rs"), &[]),
        Ok(text.clone())
    );
    assert_eq!(
        explain_file_from_analysis_at(
            &analysis(),
            &places("/repo", "/repo"),
            &native("src/a.rs"),
            &[]
        ),
        Ok(text)
    );
}

#[test]
fn explanations_fail_for_paths_that_cannot_be_meant() {
    let explain = |requested: &str| {
        explain_file_from_head_at(
            Ok(analysis()),
            &places("/repo", "/repo"),
            &native(requested),
            &[],
        )
    };

    assert_eq!(explain(""), Err(GitExplainError::EmptyPath));
    assert_eq!(explain("../x.rs"), Err(GitExplainError::PathOutsideRepository));
    let mut both = analysis();
    let mut top = both.file_metrics[0].clone();
    top.path = "a.rs".to_owned();
    both.file_metrics.push(top);
    assert_eq!(
        explain_file_from_head_at(Ok(both), &places("/repo/src", "/repo"), &native("a.rs"), &[]),
        Err(GitExplainError::AmbiguousPath {
            first: "a.rs".to_owned(),
            second: "src/a.rs".to_owned(),
        })
    );
    let fault = GitHistoryError::MissingHead {
        path: ".".to_owned(),
    };
    assert_eq!(
        explain_file_from_head(
            Err(fault.clone()),
            &places("/repo", "/repo"),
            &native("a.rs"),
            &[]
        ),
        Err(GitExplainError::History(fault))
    );
}

#[test]
fn only_the_churn_of_the_explained_file_has_to_add_up() {
    let mut analysis = analysis();
    let mut large = analysis.file_metrics[0].clone();
    large.path = "large.rs".to_owned();
    large.total_churn_added = u64::MAX;
    large.total_churn_deleted = 1;
    analysis.file_metrics.push(large);

    let text = explain_file_from_analysis_at(
        &analysis,
        &places("/repo", "/repo"),
        &native("src/a.rs"),
        &[],
    )
    .expect("file should be explained");

    assert!(text.contains("\n  total churn: 15 added, 3 deleted, 18 combined"));
    assert_eq!(
        normalize_requested_file_path(
            &places("/repo", "/repo"),
            &native("large.rs"),
            &analysis.file_metrics,
            &[]
        ),
        Ok("large.rs".to_owned())
    );
}

#[test]
fn explanations_fail_where_the_file_system_knows_no_place_or_a_name_is_no_text() {
    let unknown = RequestPlaces {
        current: None,
        ..places("/repo", "/repo")
    };
    let mut faulty = native("src/a.rs");
    faulty.parts.push(PathPart::Name(vec![0xff]));
    let mut above = faulty.clone();
    above.parts.push(PathPart::Parent);

    assert_eq!(
        explain_file_from_analysis_at(&analysis(), &unknown, &native("src/a.rs"), &[]),
        Err(GitExplainError::PathOutsideRepository)
    );
    assert_eq!(
        explain_file_from_analysis_at(&analysis(), &unknown, &native(""), &[]),
        Err(GitExplainError::EmptyPath)
    );
    assert_eq!(
        explain_file_from_analysis_at(&analysis(), &places("/repo", "/repo"), &faulty, &[]),
        Err(GitExplainError::UnsupportedPathEncoding)
    );
    assert!(
        explain_file_from_analysis_at(&analysis(), &places("/repo", "/repo"), &above, &[]).is_ok()
    );
}

#[test]
fn history_errors_speak_of_their_command() {
    let shallow = GitHistoryError::ShallowRepository {
        path: "/repo".to_owned(),
    };
    let failed = |status| GitHistoryError::GitCommandFailed {
        context: "streaming Git history",
        status,
        stderr: "fatal".to_owned(),
    };

    assert_eq!(
        git_history_error_message(&shallow, GitHistoryUsage::Diff),
        "Git repository has shallow history; fetch complete local history before running diff so metrics are not based on incomplete commits"
    );
    assert_eq!(
        git_history_error_message(&failed(Some(-1)), GitHistoryUsage::Report),
        "Git command failed while streaming Git history with status -1: fatal"
    );
    assert_eq!(
        git_history_error_message(&failed(None), GitHistoryUsage::Report),
        "Git command failed while streaming Git history with status unknown: fatal"
    );
    assert_eq!(
        GitExplainError::EmptyPath.message(),
        "explain-git requires a non-empty file path"
    );
}

#[test]
fn commit_ids_are_cut_to_twelve_bytes() {
    assert_eq!(short_commit_id("0123456789abcdef"), "0123456789ab");
    assert_eq!(short_commit_id("0123"), "0123");
    assert_eq!(short_commit_id("0123456789a\u{e9}f"), "0123456789a\u{e9}f");
}
