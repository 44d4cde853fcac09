//! Churn and ownership metrics per file.

use vstd::prelude::*;

use crate::measure;
use crate::measure::Real;
use crate::git::cochange;
use crate::git::{GitFileChange, GitFileChangeView, GitFileMetrics, GitFileMetricsView};
use crate::ownership::{
    OperationalFileOwnership, OperationalFileOwnershipView, OperationalOwnershipSnapshot,
    OperationalOwnershipSnapshotView,
};
use crate::table;
use crate::table::{TextMap, TextSet};
use crate::text;

verus! {

/// Recent churn is what changed within this many days before the HEAD commit.
pub const RECENT_CHURN_WINDOW_DAYS: i64 = 90;

pub const SECONDS_PER_DAY: i64 = 86_400;

pub const RECENT_CHURN_WINDOW_SECONDS: i64 = 7_776_000;

/// The time from which on churn is recent; it does not go below the smallest time.
pub open spec fn recent_threshold(head_commit_time: i64) -> int {
    if head_commit_time - RECENT_CHURN_WINDOW_SECONDS < i64::MIN {
        i64::MIN as int
    } else {
        head_commit_time - RECENT_CHURN_WINDOW_SECONDS
    }
}

/// The lines added to `path` by changes at or after `since`.
pub open spec fn added_since(changes: Seq<GitFileChangeView>, path: Seq<char>, since: int) -> nat
    decreases changes.len(),
{
    if changes.len() == 0 {
        0
    } else {
        let last = changes.last();
        added_since(changes.drop_last(), path, since) + if last.path == path && last.commit_time
            >= since {
            last.added_lines as nat
        } else {
            0
        }
    }
}

/// The lines deleted from `path` by changes at or after `since`.
pub open spec fn deleted_since(changes: Seq<GitFileChangeView>, path: Seq<char>, since: int) -> nat
    decreases changes.len(),
{
    if changes.len() == 0 {
        0
    } else {
        let last = changes.last();
        deleted_since(changes.drop_last(), path, since) + if last.path == path && last.commit_time
            >= since {
            last.deleted_lines as nat
        } else {
            0
        }
    }
}

/// The lines added to `path`.
pub open spec fn total_added(changes: Seq<GitFileChangeView>, path: Seq<char>) -> nat {
    added_since(changes, path, i64::MIN as int)
}

/// The lines deleted from `path`.
pub open spec fn total_deleted(changes: Seq<GitFileChangeView>, path: Seq<char>) -> nat {
    deleted_since(changes, path, i64::MIN as int)
}

/// The commits that touch `path`.
pub open spec fn touching_commits(
    changes: Seq<GitFileChangeView>,
    path: Seq<char>,
) -> Set<Seq<char>>
    decreases changes.len(),
{
    if changes.len() == 0 {
        Set::empty()
    } else {
        let front = touching_commits(changes.drop_last(), path);
        if changes.last().path == path {
            front.insert(changes.last().commit_id)
        } else {
            front
        }
    }
}

/// The first change event of each commit that touches `path`.
pub open spec fn first_touches(changes: Seq<GitFileChangeView>, path: Seq<char>) -> Seq<
    GitFileChangeView,
>
    decreases changes.len(),
{
    if changes.len() == 0 {
        Seq::empty()
    } else {
        let seen = changes.drop_last();
        let last = changes.last();
        if last.path == path && !touching_commits(seen, path).contains(last.commit_id) {
            first_touches(seen, path).push(last)
        } else {
            first_touches(seen, path)
        }
    }
}

/// The authors of change events.
pub open spec fn authors_of(touches: Seq<GitFileChangeView>) -> Set<Seq<char>>
    decreases touches.len(),
{
    if touches.len() == 0 {
        Set::empty()
    } else {
        authors_of(touches.drop_last()).insert(touches.last().author)
    }
}

/// A commit and its time.
#[verifier::ext_equal]
pub struct CommitPointView {
    pub id: Seq<char>,
    pub time: i64,
}

/// Whether one commit comes before another: by time, then by id.
pub open spec fn point_lt(a: CommitPointView, b: CommitPointView) -> bool {
    a.time < b.time || (a.time == b.time && text::text_lt(a.id, b.id))
}

/// The commit of a change event.
pub open spec fn point_of(change: GitFileChangeView) -> CommitPointView {
    CommitPointView { id: change.commit_id, time: change.commit_time }
}

/// The first of the commits of `touches`.
pub open spec fn earliest(touches: Seq<GitFileChangeView>) -> Option<CommitPointView>
    decreases touches.len(),
{
    if touches.len() == 0 {
        None
    } else {
        let point = point_of(touches.last());
        match earliest(touches.drop_last()) {
            Some(first) if !point_lt(point, first) => Some(first),
            _ => Some(point),
        }
    }
}

/// The last of the commits of `touches`.
pub open spec fn latest(touches: Seq<GitFileChangeView>) -> Option<CommitPointView>
    decreases touches.len(),
{
    if touches.len() == 0 {
        None
    } else {
        let point = point_of(touches.last());
        match latest(touches.drop_last()) {
            Some(last) if !point_lt(last, point) => Some(last),
            _ => Some(point),
        }
    }
}

/// The whole days from `time` to the HEAD commit; none where it is later.
pub open spec fn age_days(head_commit_time: i64, time: i64) -> nat {
    if time >= head_commit_time {
        0
    } else {
        ((head_commit_time - time) / SECONDS_PER_DAY as int) as nat
    }
}

/// The ownership of `path`, of which the last entry counts.
pub open spec fn ownership_of(
    by_file: Seq<OperationalFileOwnershipView>,
    path: Seq<char>,
) -> Option<OperationalFileOwnershipView>
    decreases by_file.len(),
{
    if by_file.len() == 0 {
        None
    } else if by_file.last().path == path {
        Some(by_file.last())
    } else {
        ownership_of(by_file.drop_last(), path)
    }
}

/// The metrics of `path`.
pub open spec fn metrics_of(
    changes: Seq<GitFileChangeView>,
    head_commit_time: i64,
    ownership: OperationalOwnershipSnapshotView,
    path: Seq<char>,
) -> GitFileMetricsView {
    let since = recent_threshold(head_commit_time);
    let touches = first_touches(changes, path);
    let first = earliest(touches);
    let last = latest(touches);
    let owners = match ownership_of(ownership.by_file, path) {
        Some(file) => file.owners,
        None => Seq::empty(),
    };
    GitFileMetricsView {
        path,
        commits_per_file: touching_commits(changes, path).len() as u64,
        total_churn_added: total_added(changes, path) as u64,
        total_churn_deleted: total_deleted(changes, path) as u64,
        recent_churn_added: added_since(changes, path, since) as u64,
        recent_churn_deleted: deleted_since(changes, path, since) as u64,
        author_count: authors_of(touches).len() as u64,
        owner_count: owners.len() as u64,
        dominant_owner: if owners.len() > 0 {
            Some(owners[0].author)
        } else {
            None
        },
        dominant_owner_share: if owners.len() > 0 {
            Some(owners[0].share)
        } else {
            None
        },
        co_changed_file_count: cochange::co_changed_count(changes, path) as u64,
        first_commit_id: match first {
            Some(point) => Some(point.id),
            None => None,
        },
        first_commit_time: match first {
            Some(point) => Some(point.time),
            None => None,
        },
        last_commit_id: match last {
            Some(point) => Some(point.id),
            None => None,
        },
        last_commit_time: match last {
            Some(point) => Some(point.time),
            None => None,
        },
        file_age_days: match first {
            Some(point) => Some(age_days(head_commit_time, point.time) as u64),
            None => None,
        },
    }
}

/// A commit and its time.
struct CommitPoint {
    id: String,
    time: i64,
}

impl CommitPoint {
    spec fn value(&self) -> CommitPointView {
        CommitPointView { id: self.id@, time: self.time }
    }

    /// Whether this commit comes before the other: by time, then by id.
    fn precedes(&self, other: &CommitPoint) -> (r: bool)
        ensures
            r == point_lt(self.value(), other.value()),
    {
        self.time < other.time || (self.time == other.time && text::precedes(
            self.id.as_str(),
            other.id.as_str(),
        ))
    }
}

spec fn point_value(point: Option<CommitPoint>) -> Option<CommitPointView> {
    match point {
        Some(point) => Some(point.value()),
        None => None,
    }
}

/// What has been gathered for one path.
struct FileMetricAccumulator {
    total_churn_added: u64,
    total_churn_deleted: u64,
    recent_churn_added: u64,
    recent_churn_deleted: u64,
    commits: TextSet,
    authors: TextSet,
    first_commit: Option<CommitPoint>,
    last_commit: Option<CommitPoint>,
}

impl FileMetricAccumulator {
    /// Holds what `changes` say of `path`.
    spec fn holds(
        &self,
        changes: Seq<GitFileChangeView>,
        path: Seq<char>,
        since: int,
    ) -> bool {
        let touches = first_touches(changes, path);
        &&& self.total_churn_added == total_added(changes, path)
        &&& self.total_churn_deleted == total_deleted(changes, path)
        &&& self.recent_churn_added == added_since(changes, path, since)
        &&& self.recent_churn_deleted == deleted_since(changes, path, since)
        &&& self.commits.wf()
        &&& self.commits@ == touching_commits(changes, path)
        &&& self.authors.wf()
        &&& self.authors@ == authors_of(touches)
        &&& point_value(self.first_commit) == earliest(touches)
        &&& point_value(self.last_commit) == latest(touches)
    }

    fn new() -> (out: FileMetricAccumulator)
        ensures
            forall|path: Seq<char>, since: int| #[trigger] out.holds(Seq::empty(), path, since),
    {
        FileMetricAccumulator {
            total_churn_added: 0,
            total_churn_deleted: 0,
            recent_churn_added: 0,
            recent_churn_deleted: 0,
            commits: TextSet::new(),
            authors: TextSet::new(),
            first_commit: None,
            last_commit: None,
        }
    }

    fn record_commit_point(&mut self, id: &String, time: i64)
        ensures
            final(self).total_churn_added == old(self).total_churn_added,
            final(self).total_churn_deleted == old(self).total_churn_deleted,
            final(self).recent_churn_added == old(self).recent_churn_added,
            final(self).recent_churn_deleted == old(self).recent_churn_deleted,
            final(self).commits == old(self).commits,
            final(self).authors == old(self).authors,
            point_value(final(self).first_commit) == (match point_value(old(self).first_commit) {
                Some(first) if !point_lt(CommitPointView { id: id@, time }, first) => Some(first),
                _ => Some(CommitPointView { id: id@, time }),
            }),
            point_value(final(self).last_commit) == (match point_value(old(self).last_commit) {
                Some(last) if !point_lt(last, CommitPointView { id: id@, time }) => Some(last),
                _ => Some(CommitPointView { id: id@, time }),
            }),
    {
        let point = CommitPoint { id: id.clone(), time };
        let is_first = match &self.first_commit {
            Some(first) => point.precedes(first),
            None => true,
        };
        let is_last = match &self.last_commit {
            Some(last) => last.precedes(&point),
            None => true,
        };
        if is_first {
            self.first_commit = Some(CommitPoint { id: id.clone(), time });
        }
        if is_last {
            self.last_commit = Some(point);
        }
    }

    /// Adds one change event of the path.
    fn record(
        &mut self,
        change: &GitFileChange,
        threshold: i64,
        Ghost(seen): Ghost<Seq<GitFileChangeView>>,
    )
        requires
            old(self).holds(seen, change.path@, threshold as int),
            total_added(seen.push(change.deep_view()), change.path@) <= u64::MAX,
            total_deleted(seen.push(change.deep_view()), change.path@) <= u64::MAX,
        ensures
            final(self).holds(seen.push(change.deep_view()), change.path@, threshold as int),
    {
        let ghost path = change.path@;
        let ghost now = seen.push(change.deep_view());
        proof {
            assert(now.drop_last() =~= seen);
            recent_within_total(now, path, threshold as int);
        }
        self.total_churn_added = self.total_churn_added + change.added_lines;
        self.total_churn_deleted = self.total_churn_deleted + change.deleted_lines;
        if change.commit_time >= threshold {
            self.recent_churn_added = self.recent_churn_added + change.added_lines;
            self.recent_churn_deleted = self.recent_churn_deleted + change.deleted_lines;
        }
        if self.commits.insert(change.commit_id.as_str()) {
            proof {
                assert(first_touches(now, path).drop_last() =~= first_touches(seen, path));
            }
            self.authors.insert(change.author.as_str());
            self.record_commit_point(&change.commit_id, change.commit_time);
        }
    }
}

/// Recent churn is part of all churn.
pub proof fn recent_within_total(changes: Seq<GitFileChangeView>, path: Seq<char>, since: int)
    ensures
        added_since(changes, path, since) <= total_added(changes, path),
        deleted_since(changes, path, since) <= total_deleted(changes, path),
    decreases changes.len(),
{
    if changes.len() > 0 {
        recent_within_total(changes.drop_last(), path, since);
    }
}

/// Churn only grows with further changes.
proof fn churn_grows(changes: Seq<GitFileChangeView>, n: int, path: Seq<char>)
    requires
        0 <= n <= changes.len(),
    ensures
        total_added(changes.take(n), path) <= total_added(changes, path),
        total_deleted(changes.take(n), path) <= total_deleted(changes, path),
    decreases changes.len() - n,
{
    if n < changes.len() {
        assert(changes.take(n + 1).drop_last() =~= changes.take(n));
        churn_grows(changes, n + 1, path);
    } else {
        assert(changes.take(n) =~= changes);
    }
}

/// A change event says nothing of other paths.
proof fn other_paths_keep(
    accumulator: FileMetricAccumulator,
    seen: Seq<GitFileChangeView>,
    change: GitFileChangeView,
    path: Seq<char>,
    since: int,
)
    requires
        accumulator.holds(seen, path, since),
        change.path != path,
    ensures
        accumulator.holds(seen.push(change), path, since),
{
    assert(seen.push(change).drop_last() =~= seen);
}

/// A path without change events has no touches.
proof fn untouched_path(accumulator: FileMetricAccumulator, changes: Seq<GitFileChangeView>, path: Seq<char>, since: int)
    requires
        !cochange::changed_paths(changes).contains(path),
        accumulator.holds(Seq::empty(), path, since),
    ensures
        accumulator.holds(changes, path, since),
    decreases changes.len(),
{
    if changes.len() > 0 {
        untouched_path(accumulator, changes.drop_last(), path, since);
        assert(changes.drop_last().push(changes.last()) =~= changes);
        other_paths_keep(accumulator, changes.drop_last(), changes.last(), path, since);
    } else {
        assert(changes =~= Seq::<GitFileChangeView>::empty());
    }
}

/// Commits and authors of a path are finitely many, and one touch comes from each
/// commit.
pub proof fn one_first_touch_per_commit(changes: Seq<GitFileChangeView>, path: Seq<char>)
    ensures
        touching_commits(changes, path).finite(),
        touching_commits(changes, path).len() == first_touches(changes, path).len(),
        first_touches(changes, path).len() <= changes.len(),
    decreases changes.len(),
{
    if changes.len() > 0 {
        one_first_touch_per_commit(changes.drop_last(), path);
        if changes.last().path == path && touching_commits(changes.drop_last(), path).contains(
            changes.last().commit_id,
        ) {
            assert(touching_commits(changes, path) =~= touching_commits(
                changes.drop_last(),
                path,
            ));
        }
    }
}

proof fn authors_are_few(touches: Seq<GitFileChangeView>)
    ensures
        authors_of(touches).finite(),
        authors_of(touches).len() <= touches.len(),
    decreases touches.len(),
{
    if touches.len() > 0 {
        authors_are_few(touches.drop_last());
    }
}

/// A changed path has at least one commit.
proof fn changed_path_is_touched(changes: Seq<GitFileChangeView>, path: Seq<char>)
    requires
        cochange::changed_paths(changes).contains(path),
    ensures
        first_touches(changes, path).len() > 0,
    decreases changes.len(),
{
    if changes.len() > 0 {
        if cochange::changed_paths(changes.drop_last()).contains(path) {
            changed_path_is_touched(changes.drop_last(), path);
        } else {
            one_first_touch_per_commit(changes.drop_last(), path);
            not_touched(changes.drop_last(), path);
        }
    }
}

proof fn not_touched(changes: Seq<GitFileChangeView>, path: Seq<char>)
    requires
        !cochange::changed_paths(changes).contains(path),
    ensures
        touching_commits(changes, path) == Set::<Seq<char>>::empty(),
    decreases changes.len(),
{
    if changes.len() > 0 {
        not_touched(changes.drop_last(), path);
    }
}

/// The commits of `touches` are among the change events' commits.
proof fn touches_are_changes(changes: Seq<GitFileChangeView>, path: Seq<char>)
    ensures
        forall|i: int|
            0 <= i < first_touches(changes, path).len() ==> changes.contains(
                #[trigger] first_touches(changes, path)[i],
            ),
    decreases changes.len(),
{
    if changes.len() > 0 {
        let seen = changes.drop_last();
        touches_are_changes(seen, path);
        assert forall|i: int| 0 <= i < first_touches(changes, path).len() implies changes.contains(
            #[trigger] first_touches(changes, path)[i],
        ) by {
            if i < first_touches(seen, path).len() {
                let x = first_touches(seen, path)[i];
                assert(seen.contains(x));
                let j = choose|j: int| 0 <= j < seen.len() && seen[j] == x;
                assert(changes[j] == x);
            } else {
                assert(changes[changes.len() - 1] == changes.last());
            }
        }
    }
}

proof fn earliest_is_a_touch(touches: Seq<GitFileChangeView>)
    ensures
        touches.len() > 0 ==> earliest(touches) is Some && exists|i: int|
            0 <= i < touches.len() && point_of(#[trigger] touches[i]) == earliest(touches)->0,
    decreases touches.len(),
{
    if touches.len() > 0 {
        let front = touches.drop_last();
        earliest_is_a_touch(front);
        if earliest(touches)->0 == point_of(touches.last()) {
            assert(touches[touches.len() - 1] == touches.last());
        } else {
            let i = choose|i: int|
                0 <= i < front.len() && point_of(#[trigger] front[i]) == earliest(front)->0;
            assert(touches[i] == front[i]);
        }
    }
}

fn find_ownership<'a>(ownership: &'a OperationalOwnershipSnapshot, path: &str) -> (r: Option<
    &'a OperationalFileOwnership,
>)
    ensures
        r is None <==> ownership_of(ownership.deep_view().by_file, path@) is None,
        r matches Some(file) ==> ownership_of(ownership.deep_view().by_file, path@) == Some(
            file.deep_view(),
        ),
{
    let ghost all = ownership.deep_view().by_file;
    let mut i: usize = ownership.by_file.len();
    assert(all.take(i as int) =~= all);
    while i > 0
        invariant
            i <= ownership.by_file.len(),
            all == ownership.deep_view().by_file,
            ownership_of(all, path@) == ownership_of(all.take(i as int), path@),
        decreases i,
    {
        let file = &ownership.by_file[i - 1];
        assert(all.take(i as int).last() == file.deep_view());
        assert(all.take(i as int).drop_last() =~= all.take(i - 1));
        if text::same(file.path.as_str(), path) {
            return Some(file);
        }
        i = i - 1;
    }
    None
}

/// Whether the churn of every path can be counted.
pub open spec fn churn_fits(changes: Seq<GitFileChangeView>) -> bool {
    forall|path: Seq<char>|
        #![trigger total_added(changes, path)]
        #![trigger total_deleted(changes, path)]
        total_added(changes, path) <= u64::MAX && total_deleted(changes, path) <= u64::MAX
}

/// Whether the age of every change can be computed.
pub open spec fn ages_fit(changes: Seq<GitFileChangeView>, head_commit_time: i64) -> bool {
    forall|i: int|
        0 <= i < changes.len() ==> head_commit_time - (#[trigger] changes[i]).commit_time
            <= i64::MAX
}

fn into_metrics(
    path: &String,
    accumulator: &FileMetricAccumulator,
    head_commit_time: i64,
    ownership: &OperationalOwnershipSnapshot,
    co_changed_file_count: u64,
    Ghost(changes): Ghost<Seq<GitFileChangeView>>,
) -> (out: GitFileMetrics)
    requires
        accumulator.holds(changes, path@, recent_threshold(head_commit_time)),
        co_changed_file_count == cochange::co_changed_count(changes, path@),
        ages_fit(changes, head_commit_time),
    ensures
        out.deep_view() == metrics_of(
            changes,
            head_commit_time,
            ownership.deep_view(),
            path@,
        ),
{
    let commits: usize = accumulator.commits.len();
    let authors: usize = accumulator.authors.len();
    proof {
        touches_are_changes(changes, path@);
        earliest_is_a_touch(first_touches(changes, path@));
    }
    let mut owner_count: u64 = 0;
    let mut dominant_owner: Option<String> = None;
    let mut dominant_owner_share: Option<Real> = None;
    if let Some(file) = find_ownership(ownership, path.as_str()) {
        owner_count = file.owners.len() as u64;
        if file.owners.len() > 0 {
            assert(file.deep_view().owners[0] == file.owners@[0].deep_view());
            dominant_owner = Some(file.owners[0].author.clone());
            dominant_owner_share = Some(measure::copy(&file.owners[0].share));
        }
    }
    let mut first_commit_id: Option<String> = None;
    let mut first_commit_time: Option<i64> = None;
    let mut file_age_days: Option<u64> = None;
    if let Some(point) = &accumulator.first_commit {
        first_commit_id = Some(point.id.clone());
        first_commit_time = Some(point.time);
        let days: u64 = if point.time >= head_commit_time {
            0
        } else {
            ((head_commit_time - point.time) / SECONDS_PER_DAY) as u64
        };
        file_age_days = Some(days);
    }
    let mut last_commit_id: Option<String> = None;
    let mut last_commit_time: Option<i64> = None;
    if let Some(point) = &accumulator.last_commit {
        last_commit_id = Some(point.id.clone());
        last_commit_time = Some(point.time);
    }
    GitFileMetrics {
        path: path.clone(),
        commits_per_file: commits as u64,
        total_churn_added: accumulator.total_churn_added,
        total_churn_deleted: accumulator.total_churn_deleted,
        recent_churn_added: accumulator.recent_churn_added,
        recent_churn_deleted: accumulator.recent_churn_deleted,
        author_count: authors as u64,
        owner_count,
        dominant_owner,
        dominant_owner_share,
        co_changed_file_count,
        first_commit_id,
        first_commit_time,
        last_commit_id,
        last_commit_time,
        file_age_days,
    }
}

/// What the rows of the metrics say: one row for each changed path, by path.
pub open spec fn is_metrics_table(
    rows: Seq<GitFileMetricsView>,
    changes: Seq<GitFileChangeView>,
    head_commit_time: i64,
    ownership: OperationalOwnershipSnapshotView,
) -> bool {
    &&& forall|i: int, j: int|
        0 <= i < j < rows.len() ==> text::text_lt((#[trigger] rows[i]).path, (#[trigger] rows[j]).path)
    &&& forall|i: int|
        0 <= i < rows.len() ==> cochange::changed_paths(changes).contains(
            (#[trigger] rows[i]).path,
        ) && rows[i] == metrics_of(changes, head_commit_time, ownership, rows[i].path)
    &&& forall|path: Seq<char>| #[trigger]
        cochange::changed_paths(changes).contains(path) ==> exists|i: int|
            0 <= i < rows.len() && (#[trigger] rows[i]).path == path
}

/// Aggregates raw file changes into per-file Git metrics, sorted by path.
///
/// `head_commit_time` is the committer timestamp of `HEAD` in seconds since the
/// Unix epoch. Recent churn uses the 90-day window relative to that timestamp
/// rather than the machine clock.
pub fn file_metrics_from_changes_with_ownership(
    changes: &[GitFileChange],
    head_commit_time: i64,
    ownership: &OperationalOwnershipSnapshot,
) -> (out: Vec<GitFileMetrics>)
    requires
        churn_fits(changes.deep_view()),
        ages_fit(changes.deep_view(), head_commit_time),
    ensures
        is_metrics_table(
            out.deep_view(),
            changes.deep_view(),
            head_commit_time,
            ownership.deep_view(),
        ),
{
    let ghost all = changes.deep_view();
    let threshold: i64 = if head_commit_time < i64::MIN + RECENT_CHURN_WINDOW_SECONDS {
        i64::MIN
    } else {
        head_commit_time - RECENT_CHURN_WINDOW_SECONDS
    };
    let ghost since = threshold as int;
    let mut by_path: TextMap<FileMetricAccumulator> = TextMap::new();
    let mut i: usize = 0;
    assert(by_path@.dom() =~= cochange::changed_paths(all.take(0)));
    while i < changes.len()
        invariant
            i <= changes.len(),
            all == changes.deep_view(),
            churn_fits(all),
            since == threshold,
            by_path.wf(),
            by_path@.dom() == cochange::changed_paths(all.take(i as int)),
            forall|path: Seq<char>| #[trigger]
                by_path@.dom().contains(path) ==> by_path@[path].holds(
                    all.take(i as int),
                    path,
                    since,
                ),
        decreases changes.len() - i,
    {
        let change = &changes[i];
        let ghost seen = all.take(i as int);
        let ghost now = all.take(i + 1);
        let ghost path = change.path@;
        let ghost before = by_path@;
        proof {
            assert(now =~= seen.push(change.deep_view()));
            assert(now.drop_last() =~= seen);
            assert(total_added(all, path) <= u64::MAX);
            churn_grows(all, i + 1, path);
        }
        match by_path.position(change.path.as_str()) {
            Some(at) => {
                let mut accumulator = by_path.replace_at(at, FileMetricAccumulator::new());
                accumulator.record(change, threshold, Ghost(seen));
                by_path.replace_at(at, accumulator);
            },
            None => {
                let mut accumulator = FileMetricAccumulator::new();
                proof {
                    untouched_path(accumulator, seen, path, since);
                }
                accumulator.record(change, threshold, Ghost(seen));
                by_path.insert(change.path.as_str(), accumulator);
            },
        }
        proof {
            assert(by_path@.dom() =~= cochange::changed_paths(now));
            assert forall|p: Seq<char>| #[trigger]
                by_path@.dom().contains(p) implies by_path@[p].holds(now, p, since) by {
                if p != path {
                    assert(before.dom().contains(p));
                    assert(by_path@[p] == before[p]);
                    other_paths_keep(before[p], seen, change.deep_view(), p, since);
                }
            }
        }
        i = i + 1;
    }
    assert(all.take(i as int) =~= all);
    let counts = cochange::co_changed_file_counts_from_changes(changes);
    let ghost paths = by_path.keys.deep_view();
    let mut out: Vec<GitFileMetrics> = Vec::new();
    let mut k: usize = 0;
    while k < by_path.keys.len()
        invariant
            k <= by_path.keys.len(),
            all == changes.deep_view(),
            ages_fit(all, head_commit_time),
            since == recent_threshold(head_commit_time),
            by_path.wf(),
            paths == by_path.keys.deep_view(),
            counts.wf(),
            forall|path: Seq<char>|
                #![trigger counts@.dom().contains(path)]
                counts@.dom().contains(path) <==> cochange::co_changed_files(all, path).len() > 0,
            forall|path: Seq<char>| #[trigger]
                counts@.dom().contains(path) ==> counts@[path] == cochange::co_changed_count(
                    all,
                    path,
                ),
            forall|path: Seq<char>| #[trigger]
                by_path@.dom().contains(path) ==> by_path@[path].holds(all, path, since),
            out.len() == k,
            forall|j: int|
                0 <= j < k ==> (#[trigger] out.deep_view()[j]) == metrics_of(
                    all,
                    head_commit_time,
                    ownership.deep_view(),
                    paths[j],
                ),
        decreases by_path.keys.len() - k,
    {
        proof {
            by_path.at_index(k as int);
        }
        let path = &by_path.keys[k];
        let co_changed: u64 = match counts.get(path.as_str()) {
            Some(n) => *n,
            None => 0,
        };
        assert(counts@.dom().contains(path@) || cochange::co_changed_files(all, path@).len() == 0);
        let ghost before = out.deep_view();
        let row = into_metrics(
            path,
            &by_path.values[k],
            head_commit_time,
            ownership,
            co_changed,
            Ghost(all),
        );
        let ghost value = row.deep_view();
        out.push(row);
        assert(out.deep_view() =~= before.push(value));
        k = k + 1;
    }
    proof {
        let rows = out.deep_view();
        assert forall|i: int, j: int| 0 <= i < j < rows.len() implies text::text_lt(
            (#[trigger] rows[i]).path,
            (#[trigger] rows[j]).path,
        ) by {
            assert(text::text_lt(paths[i], paths[j]));
        }
        assert forall|i: int| 0 <= i < rows.len() implies cochange::changed_paths(all).contains(
            (#[trigger] rows[i]).path,
        ) && rows[i] == metrics_of(
            all,
            head_commit_time,
            ownership.deep_view(),
            rows[i].path,
        ) by {
            by_path.at_index(i);
        }
        assert forall|path: Seq<char>| #[trigger]
            cochange::changed_paths(all).contains(path) implies exists|i: int|
            0 <= i < rows.len() && (#[trigger] rows[i]).path == path by {
            let i = by_path.index_of_key(path);
            assert(rows[i].path == path);
        }
    }
    out
}

/// There is one table of metrics for given change events.
pub proof fn metrics_table_is_unique(
    changes: Seq<GitFileChangeView>,
    head_commit_time: i64,
    ownership: OperationalOwnershipSnapshotView,
    first: Seq<GitFileMetricsView>,
    second: Seq<GitFileMetricsView>,
)
    requires
        is_metrics_table(first, changes, head_commit_time, ownership),
        is_metrics_table(second, changes, head_commit_time, ownership),
    ensures
        first == second,
{
    let a = first.map_values(|row: GitFileMetricsView| row.path);
    let b = second.map_values(|row: GitFileMetricsView| row.path);
    assert forall|i: int, j: int| 0 <= i < j < a.len() implies text::text_lt(
        #[trigger] a[i],
        #[trigger] a[j],
    ) by {
        assert(text::text_lt(first[i].path, first[j].path));
    }
    assert forall|i: int, j: int| 0 <= i < j < b.len() implies text::text_lt(
        #[trigger] b[i],
        #[trigger] b[j],
    ) by {
        assert(text::text_lt(second[i].path, second[j].path));
    }
    assert forall|path: Seq<char>| a.to_set().contains(path) == b.to_set().contains(path) by {
        if a.contains(path) {
            let i = choose|i: int| 0 <= i < a.len() && a[i] == path;
            assert(cochange::changed_paths(changes).contains(first[i].path));
            let j = choose|j: int| 0 <= j < second.len() && (#[trigger] second[j]).path == path;
            assert(b[j] == path);
        }
        if b.contains(path) {
            let i = choose|i: int| 0 <= i < b.len() && b[i] == path;
            assert(cochange::changed_paths(changes).contains(second[i].path));
            let j = choose|j: int| 0 <= j < first.len() && (#[trigger] first[j]).path == path;
            assert(a[j] == path);
        }
    }
    assert(a.to_set() =~= b.to_set());
    table::ascending_is_unique(a, b);
    assert forall|i: int| 0 <= i < first.len() implies first[i] == second[i] by {
        assert(a[i] == first[i].path);
        assert(b[i] == second[i].path);
    }
    assert(first =~= second);
}

} // verus!
