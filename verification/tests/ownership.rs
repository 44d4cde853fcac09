use hotpath::git::{GitChangeKind, GitFileChange};
use hotpath::measure::Real;
use hotpath::ownership::{
    contributions_from_changes, select_owners, AuthorContributions, OperationalFileOwnership,
    OperationalOwnerShare, OperationalOwnershipSnapshot, PathContributions,
};

fn number(value: f64) -> Real {
    Real {
        bits: value.to_bits(),
        text: format!("{:.2}", value * 100.0),
    }
}

fn bulk_change_weight(touched_files: u64) -> f64 {
    if touched_files <= 10 {
        1.0
    } else {
        (10.0 / touched_files as f64).sqrt().max(0.10)
    }
}

fn effective_lines(author: &AuthorContributions) -> f64 {
    author
        .lines
        .iter()
        .map(|line| line.changed_lines as f64 * bulk_change_weight(line.touched_files))
        .sum()
}

fn score(author: &AuthorContributions) -> f64 {
    let weighted: f64 = author
        .lines
        .iter()
        .map(|line| {
            let effective = line.changed_lines as f64 * bulk_change_weight(line.touched_files);
            effective * 0.5_f64.powf(line.age_seconds as f64 / 86_400.0 / 730.0)
        })
        .sum();
    let activity = match author.meaningful_commits {
        0 => 0.0,
        1 => 0.25,
        2 => 0.60,
        _ => 1.0,
    };
    weighted * activity
}

fn weigh(contributions: &PathContributions) -> OperationalFileOwnership {
    let lines: f64 = contributions.authors.iter().map(effective_lines).sum();
    let total: f64 = contributions.authors.iter().map(score).sum();
    let owners = contributions
        .authors
        .iter()
        .filter(|author| score(author) > 0.0)
        .map(|author| OperationalOwnerShare {
            author: author.author.clone(),
            meaningful_commits: author.meaningful_commits,
            effective_lines: number(effective_lines(author)),
            score: number(score(author)),
            share: number(score(author) / total),
        })
        .collect();
    let floor = (lines * 0.05).ceil().clamp(1.0, 200.0);
    let (owners, others) = select_owners(owners, floor.to_bits());
    let others_share: f64 = others
        .iter()
        .map(|owner| f64::from_bits(owner.share.bits))
        .sum();
    OperationalFileOwnership {
        path: contributions.path.clone(),
        owners,
        others_share: number(others_share),
    }
}

fn operational_ownership_from_changes(
    changes: &Vec<GitFileChange>,
    head_commit_time: i64,
) -> OperationalOwnershipSnapshot {
    OperationalOwnershipSnapshot {
        by_file: contributions_from_changes(changes, head_commit_time)
            .iter()
            .map(weigh)
            .collect(),
    }
}

#[test]
fn repeated_recent_maintainer_beats_stale_originator() {
    let changes = vec![
        change("old", "Alice <alice@example.invalid>", 0, 900, 100),
        change(
            "new-1",
            "Bob <bob@example.invalid>",
            6 * 365 * 86_400,
            120,
            0,
        ),
        change(
            "new-2",
            "Bob <bob@example.invalid>",
            6 * 365 * 86_400 + 10,
            100,
            20,
        ),
        change(
            "new-3",
            "Bob <bob@example.invalid>",
            6 * 365 * 86_400 + 20,
            100,
            10,
        ),
    ];

    let ownership = operational_ownership_from_changes(&changes, 6 * 365 * 86_400 + 20);
    let file = &ownership.by_file[0];

    assert_eq!(file.owners[0].author, "Bob <bob@example.invalid>");
    assert!(f64::from_bits(file.owners[0].share.bits) > 0.70);
}

#[test]
fn one_time_small_edits_collapse_into_others() {
    let changes = vec![
        change("a1", "Alice <alice@example.invalid>", 100, 100, 0),
        change("a2", "Alice <alice@example.invalid>", 200, 100, 0),
        change("a3", "Alice <alice@example.invalid>", 300, 100, 0),
        change("b1", "Bob <bob@example.invalid>", 300, 2, 0),
        change("c1", "Cara <cara@example.invalid>", 300, 2, 0),
    ];

    let ownership = operational_ownership_from_changes(&changes, 300);
    let file = &ownership.by_file[0];

    assert_eq!(file.owners.len(), 1);
    assert_eq!(file.owners[0].author, "Alice <alice@example.invalid>");
    assert!(f64::from_bits(file.others_share.bits) > 0.0);
}

#[test]
fn ownership_is_deterministic_for_equal_scores() {
    let changes = vec![
        change("b", "Zed <zed@example.invalid>", 100, 10, 0),
        change("a", "Ada <ada@example.invalid>", 100, 10, 0),
    ];

    let ownership = operational_ownership_from_changes(&changes, 100);
    let file = &ownership.by_file[0];

    assert_eq!(file.owners[0].author, "Ada <ada@example.invalid>");
    assert_eq!(file.owners[1].author, "Zed <zed@example.invalid>");
}

fn change(
    commit_id: &str,
    author: &str,
    commit_time: i64,
    added_lines: u64,
    deleted_lines: u64,
) -> GitFileChange {
    GitFileChange {
        commit_id: commit_id.to_owned(),
        parent_count: 1,
        is_merge: false,
        author: author.to_owned(),
        commit_time,
        path: "src/lib.rs".to_owned(),
        change_kind: GitChangeKind::Modified,
        added_lines,
        deleted_lines,
    }
}

#[test]
fn contributions_count_lines_commits_and_files() {
    let mut changes = vec![
        change("a", "Ada <ada@example.invalid>", 100, 10, 5),
        change("a", "Ada <ada@example.invalid>", 100, 0, 0),
        change("b", "Ada <ada@example.invalid>", 400, 1, 0),
    ];
    let mut other = change("a", "Ada <ada@example.invalid>", 100, 2, 0);
    other.path = "src/main.rs".to_owned();
    changes.push(other);

    let contributions = contributions_from_changes(&changes, 300);

    assert_eq!(contributions.len(), 2);
    assert_eq!(contributions[0].path, "src/lib.rs");
    assert_eq!(contributions[0].authors.len(), 1);
    let ada = &contributions[0].authors[0];
    assert_eq!(ada.meaningful_commits, 2);
    assert_eq!(ada.lines.len(), 2);
    assert_eq!(ada.lines[0].changed_lines, 15);
    assert_eq!(ada.lines[0].touched_files, 2);
    assert_eq!(ada.lines[0].age_seconds, 200);
    assert_eq!(ada.lines[1].age_seconds, 0);
    assert_eq!(contributions[1].path, "src/main.rs");
}

#[test]
fn owners_are_shown_or_not() {
    let owner = |author: &str, commits: u64, lines: f64, share: f64| OperationalOwnerShare {
        author: author.to_owned(),
        meaningful_commits: commits,
        effective_lines: number(lines),
        score: number(share),
        share: number(share),
    };
    let owners = vec![
        owner("d", 5, 100.0, 0.1),
        owner("a", 1, 100.0, 0.3),
        owner("b", 1, 1.0, 0.3),
        owner("c", 5, 1.0, 0.3),
    ];

    let (shown, others) = select_owners(owners, 50.0_f64.to_bits());
    let names = |owners: &Vec<OperationalOwnerShare>| {
        owners
            .iter()
            .map(|owner| owner.author.clone())
            .collect::<Vec<_>>()
    };

    assert_eq!(names(&shown), vec!["a", "c", "d"]);
    assert_eq!(names(&others), vec!["b"]);
}
