//! The explanation of one file's Git history, as text.

use vstd::prelude::*;

use crate::git::metrics;
use crate::git::{
    GitAnalysis, GitAnalysisView, GitChangeKind, GitCoChange, GitCoChangeView, GitExplainError,
    GitExplainErrorView, GitFileChange, GitFileChangeView, GitFileMetrics, GitFileMetricsView,
};
use crate::numbers;
use crate::order;
use crate::order::{KeyPart, Ordered};
use crate::paths;
use crate::paths::native;
use crate::paths::native::{NativePath, NativePathView, RequestPlaces, RequestPlacesView};
use crate::paths::{CandidateSelection, CandidateSelectionView, RequestFault};
use crate::table::TextSet;
use crate::text;

verus! {

/// The first twelve bytes of a commit id, or all of it where they are no text.
pub open spec fn short_id(commit_id: Seq<char>) -> Seq<char> {
    let bytes = vstd::utf8::encode_utf8(commit_id);
    if vstd::utf8::is_char_boundary(bytes, 12) {
        vstd::utf8::decode_utf8(bytes.take(12))
    } else {
        commit_id
    }
}

/// The first twelve bytes of a commit id, or all of it where they are no text.
pub fn short_commit_id(commit_id: &str) -> (out: &str)
    ensures
        out@ == short_id(commit_id@),
{
    if commit_id.is_char_boundary(12) {
        let (front, _) = commit_id.split_at(12);
        proof {
            assert(vstd::utf8::encode_utf8(front@) =~= vstd::utf8::encode_utf8(commit_id@).take(12));
            vstd::utf8::encode_utf8_decode_utf8(front@);
        }
        front
    } else {
        commit_id
    }
}

/// A change kind in words.
pub open spec fn kind_name(kind: GitChangeKind) -> Seq<char> {
    match kind {
        GitChangeKind::Added => "added"@,
        GitChangeKind::Modified => "modified"@,
        GitChangeKind::Deleted => "deleted"@,
        GitChangeKind::Renamed => "renamed"@,
        GitChangeKind::Copied => "copied"@,
        GitChangeKind::TypeChanged => "type_changed"@,
    }
}

/// A change kind in words.
pub fn change_kind_label(kind: GitChangeKind) -> (out: &'static str)
    ensures
        out@ == kind_name(kind),
{
    match kind {
        GitChangeKind::Added => "added",
        GitChangeKind::Modified => "modified",
        GitChangeKind::Deleted => "deleted",
        GitChangeKind::Renamed => "renamed",
        GitChangeKind::Copied => "copied",
        GitChangeKind::TypeChanged => "type_changed",
    }
}

/// A file that changed together with the explained one.
#[derive(Debug, Clone, PartialEq, Eq)]
pub struct RelatedCoChange {
    pub path: String,
    pub commit_count: u64,
}

/// What a [`RelatedCoChange`] stands for.
#[verifier::ext_equal]
pub struct RelatedCoChangeView {
    pub path: Seq<char>,
    pub commit_count: u64,
}

impl DeepView for RelatedCoChange {
    type V = RelatedCoChangeView;

    open spec fn deep_view(&self) -> RelatedCoChangeView {
        RelatedCoChangeView { path: self.path@, commit_count: self.commit_count }
    }
}

impl Ordered for RelatedCoChange {
    /// Related files are ordered by commit count, largest first, then by path.
    open spec fn key(v: RelatedCoChangeView) -> Seq<KeyPart> {
        seq![KeyPart::Number(-(v.commit_count as int)), KeyPart::Text(v.path)]
    }

    fn comes_before(&self, other: &Self) -> (r: bool) {
        proof {
            reveal_with_fuel(order::key_lt_from, 3);
        }
        if self.commit_count != other.commit_count {
            return self.commit_count > other.commit_count;
        }
        text::precedes(self.path.as_str(), other.path.as_str())
    }
}

/// The other file of each pair that `path` belongs to.
pub open spec fn partners(pairs: Seq<GitCoChangeView>, path: Seq<char>) -> Seq<RelatedCoChangeView>
    decreases pairs.len(),
{
    if pairs.len() == 0 {
        Seq::empty()
    } else {
        let front = partners(pairs.drop_last(), path);
        let pair = pairs.last();
        if pair.left_path == path {
            front.push(
                RelatedCoChangeView { path: pair.right_path, commit_count: pair.commit_count },
            )
        } else if pair.right_path == path {
            front.push(
                RelatedCoChangeView { path: pair.left_path, commit_count: pair.commit_count },
            )
        } else {
            front
        }
    }
}

/// The files that changed together with `path`, by commit count and path.
pub open spec fn related_to(pairs: Seq<GitCoChangeView>, path: Seq<char>) -> Seq<
    RelatedCoChangeView,
> {
    order::sorted_by(partners(pairs, path), order::by_key::<RelatedCoChange>())
}

/// The files that changed together with `path`, by commit count and path.
pub fn co_changes_for_path(path: &str, co_changes: &[GitCoChange]) -> (out: Vec<RelatedCoChange>)
    ensures
        out.deep_view() == related_to(co_changes.deep_view(), path@),
{
    let ghost all = co_changes.deep_view();
    let mut related: Vec<RelatedCoChange> = Vec::new();
    let mut i: usize = 0;
    assert(related.deep_view() =~= partners(all.take(0), path@));
    while i < co_changes.len()
        invariant
            i <= co_changes.len(),
            all == co_changes.deep_view(),
            related.deep_view() == partners(all.take(i as int), path@),
        decreases co_changes.len() - i,
    {
        let pair = &co_changes[i];
        let ghost before = related.deep_view();
        proof {
            assert(all.take(i + 1).drop_last() =~= all.take(i as int));
            assert(all.take(i + 1).last() == pair.deep_view());
        }
        if text::same(pair.left_path.as_str(), path) {
            let one = RelatedCoChange {
                path: pair.right_path.clone(),
                commit_count: pair.commit_count,
            };
            let ghost value = one.deep_view();
            related.push(one);
            assert(related.deep_view() =~= before.push(value));
        } else if text::same(pair.right_path.as_str(), path) {
            let one = RelatedCoChange {
                path: pair.left_path.clone(),
                commit_count: pair.commit_count,
            };
            let ghost value = one.deep_view();
            related.push(one);
            assert(related.deep_view() =~= before.push(value));
        }
        i = i + 1;
    }
    assert(all.take(i as int) =~= all);
    order::sort(related)
}

/// One change event as a line.
pub open spec fn change_line(out: Seq<char>, change: GitFileChangeView) -> Seq<char> {
    out
        + "\n  "@
        + short_id(change.commit_id)
        + "  "@
        + kind_name(change.change_kind)
        + "  +"@
        + numbers::decimal(change.added_lines as nat)
        + " -"@
        + numbers::decimal(change.deleted_lines as nat)
        + "  "@
        + change.author
        + "  commit_time "@
        + numbers::signed_decimal(change.commit_time as int)
}

/// Change events as lines.
pub open spec fn change_lines(out: Seq<char>, changes: Seq<GitFileChangeView>) -> Seq<char>
    decreases changes.len(),
{
    if changes.len() == 0 {
        out
    } else {
        change_line(change_lines(out, changes.drop_last()), changes.last())
    }
}

fn push_change_line(out: &mut String, change: &GitFileChange)
    ensures
        final(out)@ == change_line(old(out)@, change.deep_view()),
{
    out.append("\n  ");
    out.append(short_commit_id(change.commit_id.as_str()));
    out.append("  ");
    out.append(change_kind_label(change.change_kind));
    out.append("  +");
    numbers::push_decimal(out, change.added_lines);
    out.append(" -");
    numbers::push_decimal(out, change.deleted_lines);
    out.append("  ");
    out.append(change.author.as_str());
    out.append("  commit_time ");
    numbers::push_signed_decimal(out, change.commit_time);
}

/// A commit and its time in words.
pub open spec fn observed(commit_id: Option<Seq<char>>, commit_time: Option<i64>) -> Seq<char> {
    match (commit_id, commit_time) {
        (Some(id), Some(time)) => short_id(id) + " at commit_time "@ + numbers::signed_decimal(
            time as int,
        ),
        _ => "unavailable"@,
    }
}

/// A commit and its time in words.
pub fn observed_commit(commit_id: &Option<String>, commit_time: Option<i64>) -> (out: String)
    ensures
        out@ == observed(commit_id.deep_view(), commit_time),
{
    match (commit_id, commit_time) {
        (Some(id), Some(time)) => {
            let mut out = short_commit_id(id.as_str()).to_owned();
            out.append(" at commit_time ");
            numbers::push_signed_decimal(&mut out, time);
            out
        },
        _ => "unavailable".to_owned(),
    }
}

/// The age of a file in words.
pub open spec fn age_words(days: Option<u64>) -> Seq<char> {
    match days {
        Some(days) => numbers::decimal(days as nat) + " days"@,
        None => "unavailable"@,
    }
}

/// The metrics of a file as lines.
pub open spec fn metric_lines(out: Seq<char>, metric: GitFileMetricsView) -> Seq<char> {
    let counts = out
            + "\n  commits per file: "@
            + numbers::decimal(metric.commits_per_file as nat)
            + "\n  total churn: "@
            + numbers::decimal(metric.total_churn_added as nat)
            + " added, "@
            + numbers::decimal(metric.total_churn_deleted as nat)
            + " deleted, "@
            + numbers::decimal((metric.total_churn_added + metric.total_churn_deleted) as nat)
            + " combined\n  recent churn (90 days): "@
            + numbers::decimal(metric.recent_churn_added as nat)
            + " added, "@
            + numbers::decimal(metric.recent_churn_deleted as nat)
            + " deleted, "@
            + numbers::decimal((metric.recent_churn_added + metric.recent_churn_deleted) as nat)
            + " combined\n  author count: "@
            + numbers::decimal(metric.author_count as nat)
            + "\n  owner count: "@
            + numbers::decimal(metric.owner_count as nat);
    let owned = match (metric.dominant_owner, metric.dominant_owner_share) {
        (Some(owner), Some(share)) => counts
                + "\n  dominant owner: "@
                + owner
                + " ("@
                + share.text
                + "% weighted operational ownership)"@,
        _ => counts + "\n  dominant owner: unavailable"@,
    };
    owned + "\n  first observed commit: "@ + observed(
        metric.first_commit_id,
        metric.first_commit_time,
    ) + "\n  last observed commit: "@ + observed(metric.last_commit_id, metric.last_commit_time)
        + "\n  file age: "@ + age_words(metric.file_age_days)
}

/// Whether the churn of a file can be added up.
pub open spec fn churn_adds_up(metric: GitFileMetricsView) -> bool {
    &&& metric.total_churn_added + metric.total_churn_deleted <= u64::MAX
    &&& metric.recent_churn_added + metric.recent_churn_deleted <= u64::MAX
}

fn push_metric_lines(out: &mut String, metric: &GitFileMetrics)
    requires
        churn_adds_up(metric.deep_view()),
    ensures
        final(out)@ == metric_lines(old(out)@, metric.deep_view()),
{
    out.append("\n  commits per file: ");
    numbers::push_decimal(out, metric.commits_per_file);
    out.append("\n  total churn: ");
    numbers::push_decimal(out, metric.total_churn_added);
    out.append(" added, ");
    numbers::push_decimal(out, metric.total_churn_deleted);
    out.append(" deleted, ");
    numbers::push_decimal(out, metric.total_churn_added + metric.total_churn_deleted);
    out.append(" combined\n  recent churn (90 days): ");
    numbers::push_decimal(out, metric.recent_churn_added);
    out.append(" added, ");
    numbers::push_decimal(out, metric.recent_churn_deleted);
    out.append(" deleted, ");
    numbers::push_decimal(out, metric.recent_churn_added + metric.recent_churn_deleted);
    out.append(" combined\n  author count: ");
    numbers::push_decimal(out, metric.author_count);
    out.append("\n  owner count: ");
    numbers::push_decimal(out, metric.owner_count);
    match (&metric.dominant_owner, &metric.dominant_owner_share) {
        (Some(owner), Some(share)) => {
            out.append("\n  dominant owner: ");
            out.append(owner.as_str());
            out.append(" (");
            out.append(share.text.as_str());
            out.append("% weighted operational ownership)");
        },
        _ => {
            out.append("\n  dominant owner: unavailable");
        },
    }
    out.append("\n  first observed commit: ");
    let first = observed_commit(&metric.first_commit_id, metric.first_commit_time);
    out.append(first.as_str());
    out.append("\n  last observed commit: ");
    let last = observed_commit(&metric.last_commit_id, metric.last_commit_time);
    out.append(last.as_str());
    out.append("\n  file age: ");
    let age = match metric.file_age_days {
        Some(days) => {
            let mut age = numbers::decimal_text(days);
            age.append(" days");
            age
        },
        None => "unavailable".to_owned(),
    };
    out.append(age.as_str());
}

/// Related files as lines.
pub open spec fn related_lines(out: Seq<char>, related: Seq<RelatedCoChangeView>) -> Seq<char>
    decreases related.len(),
{
    if related.len() == 0 {
        out
    } else {
        related_lines(out, related.drop_last()) + "\n  "@ + numbers::decimal(
            related.last().commit_count as nat,
        ) + "  "@ + related.last().path
    }
}

/// The whole explanation.
pub open spec fn explanation(
    path: Seq<char>,
    head_commit_time: i64,
    metric: Option<GitFileMetricsView>,
    file_changes: Seq<GitFileChangeView>,
    related: Seq<RelatedCoChangeView>,
) -> Seq<char> {
    let head = "Hotpath Git explanation\npath: "@
            + path
            + "\nhistory scope: local commits reachable from HEAD\nHEAD committer timestamp: "@
            + numbers::signed_decimal(head_commit_time as int)
            + " (Unix seconds)"@;
    let raw = head + "\n\nraw changes"@;
    let changes = if file_changes.len() == 0 {
        raw + "\n  none"@
    } else {
        change_lines(raw, file_changes)
    };
    let metrics = match metric {
        Some(metric) => metric_lines(changes + "\n\nraw metrics"@, metric),
        None => changes + "\n\nraw metrics"@ + "\n  commits per file: 0\n  total churn: 0 added, 0 deleted, 0 combined\n  recent churn (90 days): 0 added, 0 deleted, 0 combined\n  author count: 0\n  owner count: 0\n  dominant owner: unavailable\n  first observed commit: unavailable\n  last observed commit: unavailable\n  file age: unavailable"@,
    };
    let pairs = if related.len() == 0 {
        metrics + "\n\nco-changes"@ + "\n  none"@
    } else {
        related_lines(metrics + "\n\nco-changes"@, related)
    };
    pairs + "\n\ncalculation notes\n  - Uses local Git history reachable from HEAD only.\n  - Root commits are diffed against the empty tree; merge commits are diffed against their first parent.\n  - Recent churn uses the 90-day window before the HEAD committer timestamp.\n  - Operational ownership weights changed lines, recency, and sustained file activity.\n  - Co-change rows count commits that touched the requested path and the listed path."@
        + "\n\nlimitations\n  - Rename handling is conservative: the rename commit counts for the destination path, but earlier history remains under the old path.\n  - Binary changes or unavailable line statistics contribute 0 line churn.\n  - Author identity is the exact commit author string; .mailmap, bot detection, and identity merging are not applied.\n  - File age is clamped to 0 days if commit timestamps place the first observed file touch after HEAD.\n  - Results are advisory and should be treated as local derived cache data when persisted."@
}

/// Renders the explanation of one file.
pub fn render_file_explanation(
    path: &str,
    head_commit_time: i64,
    metric: Option<&GitFileMetrics>,
    file_changes: &[&GitFileChange],
    co_changes: &[RelatedCoChange],
) -> (output: String)
    requires
        metric matches Some(m) ==> churn_adds_up(m.deep_view()),
    ensures
        output@ == explanation(
            path@,
            head_commit_time,
            metric.deep_view(),
            file_changes.deep_view(),
            co_changes.deep_view(),
        ),
{
    let mut text = "Hotpath Git explanation\npath: ".to_owned();
    let out = &mut text;
    out.append(path);
    out.append("\nhistory scope: local commits reachable from HEAD\nHEAD committer timestamp: ");
    numbers::push_signed_decimal(out, head_commit_time);
    out.append(" (Unix seconds)");
    out.append("\n\nraw changes");
    let ghost raw = out@;
    let ghost all = file_changes.deep_view();
    if file_changes.len() == 0 {
        out.append("\n  none");
    } else {
        let mut i: usize = 0;
        while i < file_changes.len()
            invariant
                i <= file_changes.len(),
                all == file_changes.deep_view(),
                out@ == change_lines(raw, all.take(i as int)),
            decreases file_changes.len() - i,
        {
            proof {
                assert(all.take(i + 1).drop_last() =~= all.take(i as int));
                assert(all.take(i + 1).last() == file_changes@[i as int].deep_view());
            }
            push_change_line(out, file_changes[i]);
            i = i + 1;
        }
        assert(all.take(i as int) =~= all);
    }
    out.append("\n\nraw metrics");
    match metric {
        Some(metric) => {
            push_metric_lines(out, metric);
        },
        None => {
            out.append("\n  commits per file: 0\n  total churn: 0 added, 0 deleted, 0 combined\n  recent churn (90 days): 0 added, 0 deleted, 0 combined\n  author count: 0\n  owner count: 0\n  dominant owner: unavailable\n  first observed commit: unavailable\n  last observed commit: unavailable\n  file age: unavailable");
        },
    }
    out.append("\n\nco-changes");
    let ghost start = out@;
    let ghost rows = co_changes.deep_view();
    if co_changes.len() == 0 {
        out.append("\n  none");
    } else {
        let mut i: usize = 0;
        while i < co_changes.len()
            invariant
                i <= co_changes.len(),
                rows == co_changes.deep_view(),
                out@ == related_lines(start, rows.take(i as int)),
            decreases co_changes.len() - i,
        {
            proof {
                assert(rows.take(i + 1).drop_last() =~= rows.take(i as int));
                assert(rows.take(i + 1).last() == co_changes@[i as int].deep_view());
            }
            out.append("\n  ");
            numbers::push_decimal(out, co_changes[i].commit_count);
            out.append("  ");
            out.append(co_changes[i].path.as_str());
            i = i + 1;
        }
        assert(rows.take(i as int) =~= rows);
    }
    out.append("\n\ncalculation notes\n  - Uses local Git history reachable from HEAD only.\n  - Root commits are diffed against the empty tree; merge commits are diffed against their first parent.\n  - Recent churn uses the 90-day window before the HEAD committer timestamp.\n  - Operational ownership weights changed lines, recency, and sustained file activity.\n  - Co-change rows count commits that touched the requested path and the listed path.");
    out.append("\n\nlimitations\n  - Rename handling is conservative: the rename commit counts for the destination path, but earlier history remains under the old path.\n  - Binary changes or unavailable line statistics contribute 0 line churn.\n  - Author identity is the exact commit author string; .mailmap, bot detection, and identity merging are not applied.\n  - File age is clamped to 0 days if commit timestamps place the first observed file touch after HEAD.\n  - Results are advisory and should be treated as local derived cache data when persisted.");
    text
}

/// The paths that have metrics.
pub open spec fn metric_paths(metrics: Seq<GitFileMetricsView>) -> Set<Seq<char>>
    decreases metrics.len(),
{
    if metrics.len() == 0 {
        Set::empty()
    } else {
        metric_paths(metrics.drop_last()).insert(metrics.last().path)
    }
}

/// The first metrics of `path`.
pub open spec fn metric_for(metrics: Seq<GitFileMetricsView>, path: Seq<char>) -> Option<
    GitFileMetricsView,
>
    decreases metrics.len(),
{
    if metrics.len() == 0 {
        None
    } else {
        match metric_for(metrics.drop_last(), path) {
            Some(metric) => Some(metric),
            None => if metrics.last().path == path {
                Some(metrics.last())
            } else {
                None
            },
        }
    }
}

/// Whether a change event is one of `path`.
pub open spec fn changes_path(path: Seq<char>) -> spec_fn(GitFileChangeView) -> bool {
    |change: GitFileChangeView| change.path == path
}

/// The candidate that is meant: the one with metrics, else the one that exists, else
/// the first.
pub open spec fn chosen_candidate(
    candidates: Seq<Seq<char>>,
    with_metrics: Set<Seq<char>>,
    existing: Set<Seq<char>>,
) -> Result<Seq<char>, GitExplainErrorView> {
    match paths::selection(candidates, with_metrics) {
        CandidateSelectionView::One(only) => Ok(only),
        CandidateSelectionView::Ambiguous { first, second } => Err(
            GitExplainErrorView::AmbiguousPath { first, second },
        ),
        CandidateSelectionView::Nothing => match paths::selection(candidates, existing) {
            CandidateSelectionView::One(only) => Ok(only),
            CandidateSelectionView::Ambiguous { first, second } => Err(
                GitExplainErrorView::AmbiguousPath { first, second },
            ),
            CandidateSelectionView::Nothing => if candidates.len() > 0 {
                Ok(candidates[0])
            } else {
                Err(GitExplainErrorView::PathOutsideRepository)
            },
        },
    }
}

/// Chooses the candidate that is meant.
pub fn choose_requested_candidate(
    candidates: &[String],
    with_metrics: &TextSet,
    existing: &TextSet,
) -> (r: Result<String, GitExplainError>)
    requires
        with_metrics.wf(),
        existing.wf(),
    ensures
        match r {
            Ok(path) => chosen_candidate(candidates.deep_view(), with_metrics@, existing@) == Ok::<
                Seq<char>,
                GitExplainErrorView,
            >(path@),
            Err(e) => chosen_candidate(candidates.deep_view(), with_metrics@, existing@) == Err::<
                Seq<char>,
                GitExplainErrorView,
            >(e.deep_view()),
        },
{
    match paths::select_unique_candidate(candidates, with_metrics) {
        CandidateSelection::One(only) => Ok(only),
        CandidateSelection::Ambiguous { first, second } => Err(
            GitExplainError::AmbiguousPath { first, second },
        ),
        CandidateSelection::Nothing => match paths::select_unique_candidate(
            candidates,
            existing,
        ) {
            CandidateSelection::One(only) => Ok(only),
            CandidateSelection::Ambiguous { first, second } => Err(
                GitExplainError::AmbiguousPath { first, second },
            ),
            CandidateSelection::Nothing => if candidates.len() > 0 {
                assert(candidates.deep_view()[0] == candidates@[0]@);
                Ok(candidates[0].clone())
            } else {
                Err(GitExplainError::PathOutsideRepository)
            },
        },
    }
}

/// The texts in a list.
pub(crate) fn set_of(items: &[String]) -> (out: TextSet)
    ensures
        out.wf(),
        out@ == items.deep_view().to_set(),
{
    let ghost all = items.deep_view();
    let mut out = TextSet::new();
    let mut i: usize = 0;
    assert(out@ =~= all.take(0).to_set());
    while i < items.len()
        invariant
            i <= items.len(),
            all == items.deep_view(),
            out.wf(),
            out@ == all.take(i as int).to_set(),
        decreases items.len() - i,
    {
        out.insert(items[i].as_str());
        proof {
            let now = all.take(i + 1);
            let seen = all.take(i as int);
            assert forall|s: Seq<char>| now.to_set().contains(s) == seen.to_set().insert(
                all[i as int],
            ).contains(s) by {
                if now.contains(s) {
                    let k = choose|k: int| 0 <= k < now.len() && now[k] == s;
                    if k < i {
                        assert(seen[k] == s);
                    }
                }
                if seen.contains(s) {
                    let k = choose|k: int| 0 <= k < seen.len() && seen[k] == s;
                    assert(now[k] == s);
                }
                if s == all[i as int] {
                    assert(now[i as int] == s);
                }
            }
            assert(now.to_set() =~= seen.to_set().insert(all[i as int]));
        }
        i = i + 1;
    }
    assert(all.take(i as int) =~= all);
    out
}

fn set_of_metric_paths(metrics: &[GitFileMetrics]) -> (out: TextSet)
    ensures
        out.wf(),
        out@ == metric_paths(metrics.deep_view()),
{
    let ghost all = metrics.deep_view();
    let mut out = TextSet::new();
    let mut i: usize = 0;
    while i < metrics.len()
        invariant
            i <= metrics.len(),
            all == metrics.deep_view(),
            out.wf(),
            out@ == metric_paths(all.take(i as int)),
        decreases metrics.len() - i,
    {
        assert(all.take(i + 1).drop_last() =~= all.take(i as int));
        assert(all.take(i + 1).last() == metrics@[i as int].deep_view());
        out.insert(metrics[i].path.as_str());
        i = i + 1;
    }
    assert(all.take(i as int) =~= all);
    out
}

fn find_metric<'a>(metrics: &'a [GitFileMetrics], path: &str) -> (out: Option<&'a GitFileMetrics>)
    ensures
        out.deep_view() == metric_for(metrics.deep_view(), path@),
{
    let ghost all = metrics.deep_view();
    let mut found: Option<&'a GitFileMetrics> = None;
    let mut i: usize = 0;
    while i < metrics.len()
        invariant
            i <= metrics.len(),
            all == metrics.deep_view(),
            found.deep_view() == metric_for(all.take(i as int), path@),
        decreases metrics.len() - i,
    {
        assert(all.take(i + 1).drop_last() =~= all.take(i as int));
        assert(all.take(i + 1).last() == metrics@[i as int].deep_view());
        if found.is_none() && text::same(metrics[i].path.as_str(), path) {
            found = Some(&metrics[i]);
        }
        i = i + 1;
    }
    assert(all.take(i as int) =~= all);
    found
}

/// The repository-relative path that is requested, or why there is none. `existing` are those
/// of the candidates that are there on disk.
pub open spec fn requested_file(
    places: RequestPlacesView,
    requested: NativePathView,
    with_metrics: Set<Seq<char>>,
    existing: Set<Seq<char>>,
) -> Result<Seq<char>, GitExplainErrorView> {
    match native::candidates_for(places, requested) {
        Err(RequestFault::EmptyPath) => Err(GitExplainErrorView::EmptyPath),
        Err(RequestFault::OutsideRepository) => Err(GitExplainErrorView::PathOutsideRepository),
        Err(RequestFault::UnsupportedEncoding) => Err(GitExplainErrorView::UnsupportedPathEncoding),
        Ok(candidates) => chosen_candidate(candidates, with_metrics, existing),
    }
}

/// The repository-relative path that is requested, or why there is none. `existing` are those
/// of the candidates that are there on disk.
pub fn normalize_requested_file_path(
    places: &RequestPlaces,
    requested_path: &NativePath,
    file_metrics: &[GitFileMetrics],
    existing: &[String],
) -> (r: Result<String, GitExplainError>)
    ensures
        ({
            let expected = requested_file(
                places.deep_view(),
                requested_path.deep_view(),
                metric_paths(file_metrics.deep_view()),
                existing.deep_view().to_set(),
            );
            match r {
                Ok(path) => expected == Ok::<Seq<char>, GitExplainErrorView>(path@),
                Err(e) => expected == Err::<Seq<char>, GitExplainErrorView>(e.deep_view()),
            }
        }),
{
    let candidates = match native::requested_candidates(places, requested_path) {
        Err(RequestFault::EmptyPath) => return Err(GitExplainError::EmptyPath),
        Err(RequestFault::OutsideRepository) => return Err(GitExplainError::PathOutsideRepository),
        Err(RequestFault::UnsupportedEncoding) => return Err(
            GitExplainError::UnsupportedPathEncoding,
        ),
        Ok(candidates) => candidates,
    };
    let with_metrics = set_of_metric_paths(file_metrics);
    let existing = set_of(existing);
    choose_requested_candidate(candidates.as_slice(), &with_metrics, &existing)
}

/// The explanation of the requested file, or why there is none.
pub open spec fn explained(
    analysis: GitAnalysisView,
    requested: Result<Seq<char>, GitExplainErrorView>,
) -> Result<Seq<char>, GitExplainErrorView> {
    match requested {
        Err(e) => Err(e),
        Ok(path) => Ok(
            explanation(
                path,
                analysis.head_commit_time,
                metric_for(analysis.file_metrics, path),
                analysis.changes.filter(changes_path(path)),
                related_to(analysis.co_changes, path),
            ),
        ),
    }
}

/// Whether the churn of the requested file adds up, where there is such a file and it has
/// metrics.
pub open spec fn requested_churn_adds_up(
    file_metrics: Seq<GitFileMetricsView>,
    requested: Result<Seq<char>, GitExplainErrorView>,
) -> bool {
    match requested {
        Err(_) => true,
        Ok(path) => match metric_for(file_metrics, path) {
            Some(metric) => churn_adds_up(metric),
            None => true,
        },
    }
}

/// Explains local Git history metrics and co-changes for one requested file.
///
/// The requested path may be repository-relative or relative to the current directory among the
/// `places`. `existing` are those of its candidates that exist in the worktree.
pub fn explain_file_from_analysis_at(
    analysis: &GitAnalysis,
    places: &RequestPlaces,
    requested_path: &NativePath,
    existing: &[String],
) -> (r: Result<String, GitExplainError>)
    requires
        requested_churn_adds_up(
            analysis.deep_view().file_metrics,
            requested_file(
                places.deep_view(),
                requested_path.deep_view(),
                metric_paths(analysis.deep_view().file_metrics),
                existing.deep_view().to_set(),
            ),
        ),
    ensures
        ({
            let expected = explained(
                analysis.deep_view(),
                requested_file(
                    places.deep_view(),
                    requested_path.deep_view(),
                    metric_paths(analysis.deep_view().file_metrics),
                    existing.deep_view().to_set(),
                ),
            );
            match r {
                Ok(text) => expected == Ok::<Seq<char>, GitExplainErrorView>(text@),
                Err(e) => expected == Err::<Seq<char>, GitExplainErrorView>(e.deep_view()),
            }
        }),
{
    let path = match normalize_requested_file_path(
        places,
        requested_path,
        analysis.file_metrics.as_slice(),
        existing,
    ) {
        Err(e) => return Err(e),
        Ok(path) => path,
    };
    let metric = find_metric(analysis.file_metrics.as_slice(), path.as_str());
    let ghost all = analysis.changes.deep_view();
    let ghost keep = changes_path(path@);
    let mut file_changes: Vec<&GitFileChange> = Vec::new();
    let mut i: usize = 0;
    proof {
        reveal(Seq::filter);
        assert(file_changes.deep_view() =~= all.take(0).filter(keep));
    }
    while i < analysis.changes.len()
        invariant
            i <= analysis.changes.len(),
            all == analysis.changes.deep_view(),
            keep == changes_path(path@),
            file_changes.deep_view() == all.take(i as int).filter(keep),
        decreases analysis.changes.len() - i,
    {
        let change = &analysis.changes[i];
        let ghost before = file_changes.deep_view();
        proof {
            reveal(Seq::filter);
            assert(all.take(i + 1).drop_last() =~= all.take(i as int));
            assert(all.take(i + 1).last() == change.deep_view());
        }
        if text::same(change.path.as_str(), path.as_str()) {
            file_changes.push(change);
            assert(file_changes.deep_view() =~= before.push(change.deep_view()));
        }
        i = i + 1;
    }
    assert(all.take(i as int) =~= all);
    let co_changes = co_changes_for_path(path.as_str(), analysis.co_changes.as_slice());
    Ok(
        render_file_explanation(
            path.as_str(),
            analysis.head_commit_time,
            metric,
            file_changes.as_slice(),
            co_changes.as_slice(),
        ),
    )
}

} // verus!
