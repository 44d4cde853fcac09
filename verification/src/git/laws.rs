//! What holds of every history.

use vstd::prelude::*;

use crate::git::cochange;
use crate::git::metrics;
use crate::git::{GitCoChange, GitCoChangeView, GitFileChangeView, GitFileMetricsView};
use crate::order;
use crate::ownership::OperationalOwnershipSnapshotView;
use crate::text;

verus! {

/// Whether some event is one of `path`.
pub open spec fn is_changed(changes: Seq<GitFileChangeView>, path: Seq<char>) -> bool {
    exists|i: int| 0 <= i < changes.len() && (#[trigger] changes[i]).path == path
}

/// Whether some event of `path` is one of commit `id`.
pub open spec fn is_changed_by(
    changes: Seq<GitFileChangeView>,
    path: Seq<char>,
    id: Seq<char>,
) -> bool {
    exists|i: int|
        0 <= i < changes.len() && (#[trigger] changes[i]).path == path && changes[i].commit_id == id
}

/// Whether some event of `path` has an author.
pub open spec fn is_authored_by(
    changes: Seq<GitFileChangeView>,
    path: Seq<char>,
    author: Seq<char>,
) -> bool {
    exists|i: int|
        0 <= i < changes.len() && (#[trigger] changes[i]).path == path && changes[i].author
            == author
}

/// Whether the events of a commit share its time and its author.
pub open spec fn commits_are_one(changes: Seq<GitFileChangeView>) -> bool {
    forall|i: int, j: int|
        0 <= i < changes.len() && 0 <= j < changes.len() && (#[trigger] changes[i]).commit_id == (
        #[trigger] changes[j]).commit_id ==> changes[i].commit_time == changes[j].commit_time
            && changes[i].author == changes[j].author
}

/// Whether an event lies within ninety days before the head.
pub open spec fn is_recent(change: GitFileChangeView, head_commit_time: i64) -> bool {
    change.commit_time + 90 * 24 * 60 * 60 >= head_commit_time
}

proof fn changed_paths_are_changed(changes: Seq<GitFileChangeView>, path: Seq<char>)
    ensures
        cochange::changed_paths(changes).contains(path) == is_changed(changes, path),
    decreases changes.len(),
{
    if changes.len() > 0 {
        let front = changes.drop_last();
        changed_paths_are_changed(front, path);
        assert(changes[changes.len() - 1] == changes.last());
        if is_changed(front, path) {
            let i = choose|i: int| 0 <= i < front.len() && (#[trigger] front[i]).path == path;
            assert(changes[i].path == path);
        }
        if is_changed(changes, path) && changes.last().path != path {
            let i = choose|i: int| 0 <= i < changes.len() && (#[trigger] changes[i]).path == path;
            assert(front[i].path == path);
        }
    }
}

/// The metrics have one row for each path that some event changes, and no other; the rows ascend by
/// path.
pub proof fn rows_are_the_changed_paths(
    rows: Seq<GitFileMetricsView>,
    changes: Seq<GitFileChangeView>,
    head_commit_time: i64,
    ownership: OperationalOwnershipSnapshotView,
    path: Seq<char>,
)
    requires
        metrics::is_metrics_table(rows, changes, head_commit_time, ownership),
    ensures
        (exists|i: int| 0 <= i < rows.len() && (#[trigger] rows[i]).path == path) == is_changed(
            changes,
            path,
        ),
        forall|i: int, j: int|
            0 <= i < j < rows.len() ==> text::text_lt(
                (#[trigger] rows[i]).path,
                (#[trigger] rows[j]).path,
            ),
{
    changed_paths_are_changed(changes, path);
}

proof fn untouched_has_no_lines(changes: Seq<GitFileChangeView>, path: Seq<char>, since: int)
    requires
        !is_changed(changes, path),
    ensures
        metrics::added_since(changes, path, since) == 0,
        metrics::deleted_since(changes, path, since) == 0,
    decreases changes.len(),
{
    if changes.len() > 0 {
        let front = changes.drop_last();
        assert forall|i: int| 0 <= i < front.len() implies (#[trigger] front[i]).path != path by {
            assert(changes[i] == front[i]);
        }
        assert(changes[changes.len() - 1] == changes.last());
        untouched_has_no_lines(front, path, since);
    }
}

/// The row of a path with a single event has the lines of that event as its churn; they are recent
/// where the event is.
pub proof fn a_single_change_is_the_churn(
    rows: Seq<GitFileMetricsView>,
    changes: Seq<GitFileChangeView>,
    change: GitFileChangeView,
    head_commit_time: i64,
    ownership: OperationalOwnershipSnapshotView,
    i: int,
)
    requires
        metrics::is_metrics_table(rows, changes.push(change), head_commit_time, ownership),
        !is_changed(changes, change.path),
        0 <= i < rows.len(),
        rows[i].path == change.path,
    ensures
        rows[i].total_churn_added == change.added_lines,
        rows[i].total_churn_deleted == change.deleted_lines,
        rows[i].recent_churn_added == (if is_recent(change, head_commit_time) {
            change.added_lines
        } else {
            0
        }),
        rows[i].recent_churn_deleted == (if is_recent(change, head_commit_time) {
            change.deleted_lines
        } else {
            0
        }),
{
    let now = changes.push(change);
    assert(now.drop_last() =~= changes);
    untouched_has_no_lines(changes, change.path, i64::MIN as int);
    untouched_has_no_lines(changes, change.path, metrics::recent_threshold(head_commit_time));
}

/// A further event of a path raises its churn by exactly the lines of the event, and its recent
/// churn where the event is recent.
pub proof fn a_change_raises_the_churn_by_its_lines(
    before: Seq<GitFileMetricsView>,
    after: Seq<GitFileMetricsView>,
    changes: Seq<GitFileChangeView>,
    change: GitFileChangeView,
    head_commit_time: i64,
    ownership: OperationalOwnershipSnapshotView,
    i: int,
    j: int,
)
    requires
        metrics::is_metrics_table(before, changes, head_commit_time, ownership),
        metrics::is_metrics_table(after, changes.push(change), head_commit_time, ownership),
        metrics::churn_fits(changes.push(change)),
        0 <= i < before.len() && before[i].path == change.path,
        0 <= j < after.len() && after[j].path == change.path,
    ensures
        after[j].total_churn_added == before[i].total_churn_added + change.added_lines,
        after[j].total_churn_deleted == before[i].total_churn_deleted + change.deleted_lines,
        after[j].recent_churn_added == before[i].recent_churn_added + (if is_recent(
            change,
            head_commit_time,
        ) {
            change.added_lines as int
        } else {
            0
        }),
        after[j].recent_churn_deleted == before[i].recent_churn_deleted + (if is_recent(
            change,
            head_commit_time,
        ) {
            change.deleted_lines as int
        } else {
            0
        }),
{
    let now = changes.push(change);
    let since = metrics::recent_threshold(head_commit_time);
    assert(now.drop_last() =~= changes);
    assert(metrics::total_added(now, change.path) <= u64::MAX);
    assert(metrics::total_deleted(now, change.path) <= u64::MAX);
    metrics::recent_within_total(now, change.path, since);
}

proof fn touching_commits_are_commits(changes: Seq<GitFileChangeView>, path: Seq<char>, id: Seq<char>)
    ensures
        metrics::touching_commits(changes, path).contains(id) == is_changed_by(changes, path, id),
    decreases changes.len(),
{
    if changes.len() > 0 {
        let front = changes.drop_last();
        touching_commits_are_commits(front, path, id);
        assert(changes[changes.len() - 1] == changes.last());
        if is_changed_by(front, path, id) {
            let i = choose|i: int|
                0 <= i < front.len() && (#[trigger] front[i]).path == path && front[i].commit_id
                    == id;
            assert(changes[i].path == path);
        }
        if is_changed_by(changes, path, id) && !(changes.last().path == path
            && changes.last().commit_id == id) {
            let i = choose|i: int|
                0 <= i < changes.len() && (#[trigger] changes[i]).path == path
                    && changes[i].commit_id == id;
            assert(front[i].path == path);
        }
    }
}

proof fn touching_authors_are_authors(
    changes: Seq<GitFileChangeView>,
    path: Seq<char>,
    author: Seq<char>,
)
    requires
        commits_are_one(changes),
    ensures
        metrics::authors_of(metrics::first_touches(changes, path)).contains(author)
            == is_authored_by(changes, path, author),
    decreases changes.len(),
{
    if changes.len() > 0 {
        let front = changes.drop_last();
        let last = changes.last();
        assert forall|i: int, j: int|
            0 <= i < front.len() && 0 <= j < front.len() && (#[trigger] front[i]).commit_id == (
            #[trigger] front[j]).commit_id implies front[i].commit_time == front[j].commit_time
            && front[i].author == front[j].author by {
            assert(changes[i] == front[i] && changes[j] == front[j]);
        }
        touching_authors_are_authors(front, path, author);
        touching_commits_are_commits(front, path, last.commit_id);
        let touches = metrics::first_touches(front, path);
        assert(touches.push(last).drop_last() =~= touches);
        assert(changes[changes.len() - 1] == last);
        if is_authored_by(front, path, author) {
            let i = choose|i: int|
                0 <= i < front.len() && (#[trigger] front[i]).path == path && front[i].author
                    == author;
            assert(changes[i].path == path);
        }
        if is_authored_by(changes, path, author) && !is_authored_by(front, path, author) {
            let i = choose|i: int|
                0 <= i < changes.len() && (#[trigger] changes[i]).path == path && changes[i].author
                    == author;
            if i < front.len() {
                assert(front[i].path == path);
            }
            if is_changed_by(front, path, last.commit_id) {
                let k = choose|k: int|
                    0 <= k < front.len() && (#[trigger] front[k]).path == path
                        && front[k].commit_id == last.commit_id;
                assert(changes[k] == front[k]);
                assert(front[k].author == author);
            }
        }
    }
}

proof fn authors_are_finite(touches: Seq<GitFileChangeView>)
    ensures
        metrics::authors_of(touches).finite(),
        metrics::authors_of(touches).len() <= touches.len(),
    decreases touches.len(),
{
    if touches.len() > 0 {
        authors_are_finite(touches.drop_last());
    }
}

/// A further event of a path counts as one commit more where no event before is of its commit, and
/// as one author more where none has its author; else the numbers stay.
pub proof fn a_change_counts_its_commit_and_author_once(
    before: Seq<GitFileMetricsView>,
    after: Seq<GitFileMetricsView>,
    changes: Seq<GitFileChangeView>,
    change: GitFileChangeView,
    head_commit_time: i64,
    ownership: OperationalOwnershipSnapshotView,
    i: int,
    j: int,
)
    requires
        metrics::is_metrics_table(before, changes, head_commit_time, ownership),
        metrics::is_metrics_table(after, changes.push(change), head_commit_time, ownership),
        commits_are_one(changes.push(change)),
        changes.len() < u64::MAX,
        0 <= i < before.len() && before[i].path == change.path,
        0 <= j < after.len() && after[j].path == change.path,
    ensures
        after[j].commits_per_file == before[i].commits_per_file + (if is_changed_by(
            changes,
            change.path,
            change.commit_id,
        ) {
            0int
        } else {
            1
        }),
        after[j].author_count == before[i].author_count + (if is_authored_by(
            changes,
            change.path,
            change.author,
        ) {
            0int
        } else {
            1
        }),
{
    let path = change.path;
    let now = changes.push(change);
    assert(now.drop_last() =~= changes);
    metrics::one_first_touch_per_commit(changes, path);
    metrics::one_first_touch_per_commit(now, path);
    touching_commits_are_commits(changes, path, change.commit_id);
    let touches = metrics::first_touches(changes, path);
    let touched = metrics::first_touches(now, path);
    assert(touches.push(change).drop_last() =~= touches);
    authors_are_finite(touches);
    authors_are_finite(touched);
    assert forall|x: int, y: int|
        0 <= x < changes.len() && 0 <= y < changes.len() && (#[trigger] changes[x]).commit_id == (
        #[trigger] changes[y]).commit_id implies changes[x].commit_time == changes[y].commit_time
        && changes[x].author == changes[y].author by {
        assert(now[x] == changes[x] && now[y] == changes[y]);
    }
    touching_authors_are_authors(changes, path, change.author);
    touching_authors_are_authors(now, path, change.author);
    let old = metrics::authors_of(touches);
    let new = metrics::authors_of(touched);
    if is_changed_by(changes, path, change.commit_id) {
        assert(metrics::touching_commits(now, path) =~= metrics::touching_commits(changes, path));
        let k = choose|k: int|
            0 <= k < changes.len() && (#[trigger] changes[k]).path == path && changes[k].commit_id
                == change.commit_id;
        assert(now[k] == changes[k] && now[changes.len() as int] == change);
        assert(changes[k].author == change.author);
    } else {
        assert(new =~= old.insert(change.author));
    }
}

/// A path with a single event has one commit and one author, and that commit is its first and its
/// last.
pub proof fn a_single_change_is_the_commit(
    rows: Seq<GitFileMetricsView>,
    changes: Seq<GitFileChangeView>,
    change: GitFileChangeView,
    head_commit_time: i64,
    ownership: OperationalOwnershipSnapshotView,
    i: int,
)
    requires
        metrics::is_metrics_table(rows, changes.push(change), head_commit_time, ownership),
        !is_changed(changes, change.path),
        0 <= i < rows.len(),
        rows[i].path == change.path,
    ensures
        rows[i].commits_per_file == 1,
        rows[i].author_count == 1,
        rows[i].first_commit_id == Some(change.commit_id),
        rows[i].first_commit_time == Some(change.commit_time),
        rows[i].last_commit_id == Some(change.commit_id),
        rows[i].last_commit_time == Some(change.commit_time),
{
    let path = change.path;
    let now = changes.push(change);
    assert(now.drop_last() =~= changes);
    assert(metrics::touching_commits(changes, path) =~= Set::empty()) by {
        assert forall|id: Seq<char>| !metrics::touching_commits(changes, path).contains(id) by {
            touching_commits_are_commits(changes, path, id);
        }
    }
    metrics::one_first_touch_per_commit(changes, path);
    let touches = metrics::first_touches(now, path);
    assert(metrics::first_touches(changes, path) =~= Seq::empty());
    assert(touches =~= seq![change]);
    let none = touches.drop_last();
    assert(none.len() == 0);
    assert(metrics::authors_of(none) == Set::<Seq<char>>::empty());
    assert(metrics::earliest(none) is None && metrics::latest(none) is None);
    assert(metrics::authors_of(touches) =~= Set::empty().insert(change.author));
    assert(metrics::touching_commits(now, path) =~= Set::empty().insert(change.commit_id));
}

/// Whether commit `id` at `time` comes no later than an event: by time, then by id.
pub open spec fn is_no_later(id: Seq<char>, time: i64, change: GitFileChangeView) -> bool {
    time < change.commit_time || (time == change.commit_time && !text::text_lt(
        change.commit_id,
        id,
    ))
}

/// Whether commit `id` at `time` comes no earlier than an event: by time, then by id.
pub open spec fn is_no_earlier(id: Seq<char>, time: i64, change: GitFileChangeView) -> bool {
    time > change.commit_time || (time == change.commit_time && !text::text_lt(
        id,
        change.commit_id,
    ))
}

proof fn ends_of_touches(touches: Seq<GitFileChangeView>)
    requires
        touches.len() > 0,
    ensures
        metrics::earliest(touches) is Some,
        metrics::latest(touches) is Some,
        exists|i: int|
            0 <= i < touches.len() && (#[trigger] touches[i]).commit_id == metrics::earliest(
                touches,
            )->0.id && touches[i].commit_time == metrics::earliest(touches)->0.time,
        exists|i: int|
            0 <= i < touches.len() && (#[trigger] touches[i]).commit_id == metrics::latest(
                touches,
            )->0.id && touches[i].commit_time == metrics::latest(touches)->0.time,
        forall|i: int|
            0 <= i < touches.len() ==> is_no_later(
                metrics::earliest(touches)->0.id,
                metrics::earliest(touches)->0.time,
                #[trigger] touches[i],
            ),
        forall|i: int|
            0 <= i < touches.len() ==> is_no_earlier(
                metrics::latest(touches)->0.id,
                metrics::latest(touches)->0.time,
                #[trigger] touches[i],
            ),
    decreases touches.len(),
{
    let front = touches.drop_last();
    let last = touches.last();
    assert(touches[touches.len() - 1] == last);
    text::text_lt_irreflexive(last.commit_id);
    if front.len() > 0 {
        ends_of_touches(front);
        let first = metrics::earliest(front)->0;
        let final_one = metrics::latest(front)->0;
        let a = choose|i: int|
            0 <= i < front.len() && (#[trigger] front[i]).commit_id == first.id
                && front[i].commit_time == first.time;
        let b = choose|i: int|
            0 <= i < front.len() && (#[trigger] front[i]).commit_id == final_one.id
                && front[i].commit_time == final_one.time;
        assert(touches[a] == front[a] && touches[b] == front[b]);
        assert forall|i: int| 0 <= i < touches.len() implies is_no_later(
            metrics::earliest(touches)->0.id,
            metrics::earliest(touches)->0.time,
            #[trigger] touches[i],
        ) by {
            if i < front.len() {
                assert(touches[i] == front[i]);
                if text::text_lt(front[i].commit_id, last.commit_id) && text::text_lt(
                    last.commit_id,
                    first.id,
                ) {
                    text::text_lt_transitive(front[i].commit_id, last.commit_id, first.id);
                }
            }
        }
        assert forall|i: int| 0 <= i < touches.len() implies is_no_earlier(
            metrics::latest(touches)->0.id,
            metrics::latest(touches)->0.time,
            #[trigger] touches[i],
        ) by {
            if i < front.len() {
                assert(touches[i] == front[i]);
                if text::text_lt(final_one.id, last.commit_id) && text::text_lt(
                    last.commit_id,
                    front[i].commit_id,
                ) {
                    text::text_lt_transitive(
                        final_one.id,
                        last.commit_id,
                        front[i].commit_id,
                    );
                }
            }
        }
    } else {
        assert(front =~= Seq::empty());
        assert(metrics::earliest(front) is None);
    }
}

proof fn every_event_is_touched(changes: Seq<GitFileChangeView>, path: Seq<char>, i: int) -> (k: int)
    requires
        commits_are_one(changes),
        0 <= i < changes.len(),
        changes[i].path == path,
    ensures
        0 <= k < metrics::first_touches(changes, path).len(),
        metrics::first_touches(changes, path)[k].commit_id == changes[i].commit_id,
        metrics::first_touches(changes, path)[k].commit_time == changes[i].commit_time,
    decreases changes.len(),
{
    let front = changes.drop_last();
    let last = changes.last();
    assert forall|x: int, y: int|
        0 <= x < front.len() && 0 <= y < front.len() && (#[trigger] front[x]).commit_id == (
        #[trigger] front[y]).commit_id implies front[x].commit_time == front[y].commit_time
        && front[x].author == front[y].author by {
        assert(changes[x] == front[x] && changes[y] == front[y]);
    }
    if i < front.len() {
        assert(front[i] == changes[i]);
        every_event_is_touched(front, path, i)
    } else if metrics::touching_commits(front, path).contains(last.commit_id) {
        touching_commits_are_commits(front, path, last.commit_id);
        let m = choose|m: int|
            0 <= m < front.len() && (#[trigger] front[m]).path == path && front[m].commit_id
                == last.commit_id;
        assert(changes[m] == front[m] && changes[i] == last);
        every_event_is_touched(front, path, m)
    } else {
        metrics::first_touches(changes, path).len() - 1
    }
}

proof fn touches_are_events(changes: Seq<GitFileChangeView>, path: Seq<char>, k: int) -> (i: int)
    requires
        0 <= k < metrics::first_touches(changes, path).len(),
    ensures
        0 <= i < changes.len(),
        changes[i] == metrics::first_touches(changes, path)[k],
        changes[i].path == path,
    decreases changes.len(),
{
    let front = changes.drop_last();
    if k < metrics::first_touches(front, path).len() {
        touches_are_events(front, path, k)
    } else {
        changes.len() - 1
    }
}

/// The first and the last commit of a path are commits of its events, and no event comes before the
/// first or after the last. The age of the file is the number of whole days from the first to the
/// head.
pub proof fn a_path_lives_from_its_first_to_its_last_commit(
    rows: Seq<GitFileMetricsView>,
    changes: Seq<GitFileChangeView>,
    head_commit_time: i64,
    ownership: OperationalOwnershipSnapshotView,
    i: int,
)
    requires
        metrics::is_metrics_table(rows, changes, head_commit_time, ownership),
        commits_are_one(changes),
        0 <= i < rows.len(),
    ensures
        match (rows[i].first_commit_id, rows[i].first_commit_time) {
            (Some(id), Some(time)) => {
                &&& exists|k: int|
                    0 <= k < changes.len() && (#[trigger] changes[k]).path == rows[i].path
                        && changes[k].commit_id == id && changes[k].commit_time == time
                &&& forall|k: int|
                    0 <= k < changes.len() && (#[trigger] changes[k]).path == rows[i].path
                        ==> is_no_later(id, time, changes[k])
                &&& rows[i].file_age_days matches Some(days) && (if time <= head_commit_time {
                    days * 86_400 <= head_commit_time - time < (days + 1) * 86_400
                } else {
                    days == 0
                })
            },
            _ => false,
        },
        match (rows[i].last_commit_id, rows[i].last_commit_time) {
            (Some(id), Some(time)) => {
                &&& exists|k: int|
                    0 <= k < changes.len() && (#[trigger] changes[k]).path == rows[i].path
                        && changes[k].commit_id == id && changes[k].commit_time == time
                &&& forall|k: int|
                    0 <= k < changes.len() && (#[trigger] changes[k]).path == rows[i].path
                        ==> is_no_earlier(id, time, changes[k])
            },
            _ => false,
        },
{
    let path = rows[i].path;
    let touches = metrics::first_touches(changes, path);
    changed_paths_are_changed(changes, path);
    let n = choose|n: int| 0 <= n < changes.len() && (#[trigger] changes[n]).path == path;
    let _ = every_event_is_touched(changes, path, n);
    ends_of_touches(touches);
    let first = metrics::earliest(touches)->0;
    let last = metrics::latest(touches)->0;
    let a = choose|k: int|
        0 <= k < touches.len() && (#[trigger] touches[k]).commit_id == first.id
            && touches[k].commit_time == first.time;
    let b = choose|k: int|
        0 <= k < touches.len() && (#[trigger] touches[k]).commit_id == last.id
            && touches[k].commit_time == last.time;
    let x = touches_are_events(changes, path, a);
    let y = touches_are_events(changes, path, b);
    assert(changes[x].path == path && changes[y].path == path);
    assert forall|k: int| 0 <= k < changes.len() && (#[trigger] changes[k]).path == path implies (
    is_no_later(first.id, first.time, changes[k]) && is_no_earlier(last.id, last.time, changes[k])) by {
        let t = every_event_is_touched(changes, path, k);
        assert(is_no_later(first.id, first.time, touches[t]));
        assert(is_no_earlier(last.id, last.time, touches[t]));
    }
}

proof fn last_ownership_counts(
    by_file: Seq<crate::ownership::OperationalFileOwnershipView>,
    k: int,
)
    requires
        0 <= k < by_file.len(),
        forall|m: int| k < m < by_file.len() ==> (#[trigger] by_file[m]).path != by_file[k].path,
    ensures
        metrics::ownership_of(by_file, by_file[k].path) == Some(by_file[k]),
    decreases by_file.len(),
{
    if k < by_file.len() - 1 {
        assert(by_file[by_file.len() - 1].path != by_file[k].path);
        let front = by_file.drop_last();
        assert forall|m: int| k < m < front.len() implies (#[trigger] front[m]).path
            != front[k].path by {
            assert(by_file[m] == front[m]);
        }
        last_ownership_counts(front, k);
    }
}

/// A path has as many owners as its entry among the owners lists, and the first of them dominates.
pub proof fn the_first_owner_dominates(
    rows: Seq<GitFileMetricsView>,
    changes: Seq<GitFileChangeView>,
    head_commit_time: i64,
    ownership: OperationalOwnershipSnapshotView,
    i: int,
    k: int,
)
    requires
        metrics::is_metrics_table(rows, changes, head_commit_time, ownership),
        0 <= i < rows.len(),
        0 <= k < ownership.by_file.len(),
        ownership.by_file[k].path == rows[i].path,
        forall|m: int|
            k < m < ownership.by_file.len() ==> (#[trigger] ownership.by_file[m]).path
                != rows[i].path,
        ownership.by_file[k].owners.len() <= u64::MAX,
    ensures
        rows[i].owner_count == ownership.by_file[k].owners.len(),
        ownership.by_file[k].owners.len() > 0 ==> rows[i].dominant_owner == Some(
            ownership.by_file[k].owners[0].author,
        ) && rows[i].dominant_owner_share == Some(ownership.by_file[k].owners[0].share),
        ownership.by_file[k].owners.len() == 0 ==> rows[i].dominant_owner is None
            && rows[i].dominant_owner_share is None,
{
    last_ownership_counts(ownership.by_file, k);
}

/// The paths that the events of a commit change.
pub open spec fn paths_of(changes: Seq<GitFileChangeView>, id: Seq<char>) -> Set<Seq<char>> {
    Set::new(|path: Seq<char>| is_changed_by(changes, path, id))
}

/// The commits that change both of two paths, and no more than a hundred.
pub open spec fn commits_of_both(
    changes: Seq<GitFileChangeView>,
    left: Seq<char>,
    right: Seq<char>,
) -> Set<Seq<char>> {
    Set::new(
        |id: Seq<char>|
            is_changed_by(changes, left, id) && is_changed_by(changes, right, id) && paths_of(
                changes,
                id,
            ).len() <= 100,
    )
}

proof fn commit_paths_are_paths(changes: Seq<GitFileChangeView>, id: Seq<char>)
    ensures
        cochange::commit_paths(changes, id) == paths_of(changes, id),
{
    assert forall|path: Seq<char>| cochange::commit_paths(changes, id).contains(path)
        == is_changed_by(changes, path, id) by {
        cochange::commit_paths_are_touched(changes, id, path);
        if cochange::commit_paths(changes, id).contains(path) {
            let i = choose|i: int|
                0 <= i < changes.len() && (#[trigger] changes[i]).commit_id == id
                    && changes[i].path == path;
            assert(changes[i].path == path && changes[i].commit_id == id);
        }
        if is_changed_by(changes, path, id) {
            let i = choose|i: int|
                0 <= i < changes.len() && (#[trigger] changes[i]).path == path
                    && changes[i].commit_id == id;
            assert(changes[i].commit_id == id);
        }
    }
    assert(cochange::commit_paths(changes, id) =~= paths_of(changes, id));
}

proof fn commits_have_events(changes: Seq<GitFileChangeView>, path: Seq<char>, id: Seq<char>)
    requires
        is_changed_by(changes, path, id),
    ensures
        cochange::commit_ids(changes).contains(id),
    decreases changes.len(),
{
    if changes.len() > 0 && changes.last().commit_id != id {
        let front = changes.drop_last();
        let i = choose|i: int|
            0 <= i < changes.len() && (#[trigger] changes[i]).path == path && changes[i].commit_id
                == id;
        assert(front[i] == changes[i]);
        commits_have_events(front, path, id);
    }
}

/// A pair of files that changed together counts the commits that change both, without those that
/// change more than a hundred files; it has a row exactly where there is such a commit.
pub proof fn pairs_count_their_common_commits(
    rows: Seq<GitCoChangeView>,
    changes: Seq<GitFileChangeView>,
    left: Seq<char>,
    right: Seq<char>,
)
    requires
        cochange::is_co_change_table(rows, changes),
        text::text_lt(left, right),
    ensures
        forall|i: int|
            0 <= i < rows.len() && (#[trigger] rows[i]).left_path == left && rows[i].right_path
                == right ==> rows[i].commit_count == commits_of_both(changes, left, right).len(),
        commits_of_both(changes, left, right).len() > 0 ==> exists|i: int|
            0 <= i < rows.len() && (#[trigger] rows[i]).left_path == left && rows[i].right_path
                == right,
        forall|i: int|
            0 <= i < rows.len() ==> (#[trigger] rows[i]).commit_count > 0 && text::text_lt(
                rows[i].left_path,
                rows[i].right_path,
            ),
{
    let shared = cochange::shared_commits(changes, left, right);
    assert forall|id: Seq<char>| shared.contains(id) == commits_of_both(
        changes,
        left,
        right,
    ).contains(id) by {
        commit_paths_are_paths(changes, id);
        assert(cochange::commit_paths(changes, id).contains(left) == is_changed_by(
            changes,
            left,
            id,
        ));
        if is_changed_by(changes, left, id) {
            commits_have_events(changes, left, id);
        }
    }
    assert(shared =~= commits_of_both(changes, left, right));
}

/// Pairs with more common commits come first, and those with as many by their paths.
pub proof fn pairs_with_more_commits_come_first(
    rows: Seq<GitCoChangeView>,
    changes: Seq<GitFileChangeView>,
    i: int,
    j: int,
)
    requires
        cochange::is_co_change_table(rows, changes),
        0 <= i < j < rows.len(),
    ensures
        rows[i].commit_count > rows[j].commit_count || (rows[i].commit_count == rows[j].commit_count
            && (text::text_lt(rows[i].left_path, rows[j].left_path) || (rows[i].left_path
            == rows[j].left_path && text::text_lt(rows[i].right_path, rows[j].right_path)))),
{
    let lt = order::by_key::<GitCoChange>();
    let (a, b) = (rows[i], rows[j]);
    assert(!lt(b, a));
    let (x, y) = (
        <GitCoChange as order::Ordered>::key(b),
        <GitCoChange as order::Ordered>::key(a),
    );
    reveal_with_fuel(order::key_lt_from, 4);
    assert(lt(b, a) == order::key_lt_from(x, y, 0));
    assert(x[0] == order::KeyPart::Number(-(b.commit_count as int)));
    assert(y[0] == order::KeyPart::Number(-(a.commit_count as int)));
    assert(x[1] == order::KeyPart::Text(b.left_path) && y[1] == order::KeyPart::Text(a.left_path));
    assert(x[2] == order::KeyPart::Text(b.right_path) && y[2] == order::KeyPart::Text(
        a.right_path,
    ));
    text::text_lt_total(a.left_path, b.left_path);
    text::text_lt_total(a.right_path, b.right_path);
    if a.commit_count == b.commit_count && a.left_path == b.left_path && a.right_path
        == b.right_path {
        assert(a == b);
        assert(rows[i] != rows[j]);
    }
}

/// The files that some commit changes together with `path`.
pub open spec fn partners_of(changes: Seq<GitFileChangeView>, path: Seq<char>) -> Set<Seq<char>> {
    Set::new(
        |other: Seq<char>|
            other != path && exists|id: Seq<char>| #[trigger]
                is_changed_by(changes, path, id) && is_changed_by(changes, other, id),
    )
}

/// The row of a path counts the files that some commit changes together with it, up to
/// twenty-five.
pub proof fn rows_count_the_partners(
    rows: Seq<GitFileMetricsView>,
    changes: Seq<GitFileChangeView>,
    head_commit_time: i64,
    ownership: OperationalOwnershipSnapshotView,
    i: int,
)
    requires
        metrics::is_metrics_table(rows, changes, head_commit_time, ownership),
        0 <= i < rows.len(),
    ensures
        ({
            let n = partners_of(changes, rows[i].path).len();
            rows[i].co_changed_file_count == (if n > 25 {
                25
            } else {
                n
            })
        }),
{
    let path = rows[i].path;
    let files = cochange::co_changed_files(changes, path);
    assert forall|other: Seq<char>| files.contains(other) == partners_of(changes, path).contains(
        other,
    ) by {
        if files.contains(other) {
            let id = choose|id: Seq<char>|
                (#[trigger] cochange::commit_paths(changes, id)).contains(path)
                    && cochange::commit_paths(changes, id).contains(other);
            commit_paths_are_paths(changes, id);
            assert(paths_of(changes, id).contains(path) && paths_of(changes, id).contains(other));
            assert(is_changed_by(changes, path, id) && is_changed_by(changes, other, id));
        }
        if partners_of(changes, path).contains(other) {
            let id = choose|id: Seq<char>| #[trigger]
                is_changed_by(changes, path, id) && is_changed_by(changes, other, id);
            commit_paths_are_paths(changes, id);
            assert(paths_of(changes, id).contains(path) && paths_of(changes, id).contains(other));
            assert(cochange::commit_paths(changes, id).contains(other));
            let k = choose|k: int|
                0 <= k < changes.len() && (#[trigger] changes[k]).path == other
                    && changes[k].commit_id == id;
            assert(changes[k].path == other);
            changed_paths_are_changed(changes, other);
        }
    }
    assert(files =~= partners_of(changes, path));
}

} // verus!
