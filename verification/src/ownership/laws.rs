//! What holds of all contributions and owners.

use vstd::prelude::*;

use crate::git;
use crate::git::GitFileChangeView;
use crate::measure;
use crate::ownership;
use crate::ownership::{ContributionView, LineContribution, OperationalOwnerShareView};
use crate::table;

verus! {

/// Whether a change adds or deletes lines of a file.
pub open spec fn is_work_on(change: GitFileChangeView, path: Seq<char>) -> bool {
    change.path == path && (change.added_lines > 0 || change.deleted_lines > 0)
}

/// Whether lines are those of a change: as many as it adds and deletes, in a commit that touches
/// so many files, so long before the head.
pub open spec fn are_lines_of(
    lines: LineContribution,
    changes: Seq<GitFileChangeView>,
    change: GitFileChangeView,
    head_commit_time: i64,
) -> bool {
    &&& change.added_lines + change.deleted_lines <= u64::MAX ==> lines.changed_lines
        == change.added_lines + change.deleted_lines
    &&& change.added_lines + change.deleted_lines > u64::MAX ==> lines.changed_lines == u64::MAX
    &&& lines.touched_files == git::laws::paths_of(changes, change.commit_id).len()
    &&& change.commit_time >= head_commit_time ==> lines.age_seconds == 0
    &&& 0 <= head_commit_time - change.commit_time <= i64::MAX ==> change.commit_time
        + lines.age_seconds == head_commit_time
    &&& head_commit_time - change.commit_time > i64::MAX ==> lines.age_seconds == i64::MAX
}

proof fn touched_paths(changes: Seq<GitFileChangeView>, id: Seq<char>)
    ensures
        ownership::paths_in_commit(changes, id) == git::laws::paths_of(changes, id),
        ownership::paths_in_commit(changes, id).finite(),
        ownership::paths_in_commit(changes, id).len() <= changes.len(),
    decreases changes.len(),
{
    if changes.len() > 0 {
        let front = changes.drop_last();
        let last = changes.last();
        touched_paths(front, id);
        assert forall|path: Seq<char>| #[trigger]
            git::laws::is_changed_by(changes, path, id) == (git::laws::is_changed_by(
                front,
                path,
                id,
            ) || (last.path == path && last.commit_id == id)) by {
            if git::laws::is_changed_by(changes, path, id) {
                let i = choose|i: int|
                    0 <= i < changes.len() && (#[trigger] changes[i]).path == path
                        && changes[i].commit_id == id;
                if i < front.len() {
                    assert(front[i] == changes[i]);
                }
            }
            if git::laws::is_changed_by(front, path, id) {
                let i = choose|i: int|
                    0 <= i < front.len() && (#[trigger] front[i]).path == path
                        && front[i].commit_id == id;
                assert(changes[i].path == path);
            }
            if last.path == path && last.commit_id == id {
                assert(changes[changes.len() - 1].path == path);
            }
        }
    }
    assert(ownership::paths_in_commit(changes, id) =~= git::laws::paths_of(changes, id));
}

proof fn work_is_kept(
    all: Seq<GitFileChangeView>,
    changes: Seq<GitFileChangeView>,
    head_commit_time: i64,
    i: int,
)
    requires
        0 <= i < changes.len(),
        is_work_on(changes[i], changes[i].path),
    ensures
        ownership::contributions_to(all, changes, head_commit_time, changes[i].path).contains(
            ownership::contribution_of(all, changes[i], head_commit_time),
        ),
        ownership::contributed_paths(changes).contains(changes[i].path),
    decreases changes.len(),
{
    let path = changes[i].path;
    let one = ownership::contribution_of(all, changes[i], head_commit_time);
    let kept = ownership::contributions_to(all, changes, head_commit_time, path);
    if i < changes.len() - 1 {
        let front = changes.drop_last();
        assert(front[i] == changes[i]);
        work_is_kept(all, front, head_commit_time, i);
        let before = ownership::contributions_to(all, front, head_commit_time, path);
        let k = choose|k: int| 0 <= k < before.len() && before[k] == one;
        assert(kept[k] == one);
    } else {
        assert(kept[kept.len() - 1] == one);
    }
}

proof fn authored_work_is_kept(kept: Seq<ContributionView>, i: int)
    requires
        0 <= i < kept.len(),
    ensures
        ownership::authors_of(kept).contains(kept[i].author),
        ownership::made_by(kept, kept[i].author).contains(kept[i]),
    decreases kept.len(),
{
    let own = ownership::made_by(kept, kept[i].author);
    if i < kept.len() - 1 {
        let front = kept.drop_last();
        assert(front[i] == kept[i]);
        authored_work_is_kept(front, i);
        let before = ownership::made_by(front, kept[i].author);
        let k = choose|k: int| 0 <= k < before.len() && before[k] == kept[i];
        assert(own[k] == kept[i]);
    } else {
        assert(own[own.len() - 1] == kept[i]);
    }
}

proof fn authors_are_finite(kept: Seq<ContributionView>)
    ensures
        ownership::authors_of(kept).finite(),
    decreases kept.len(),
{
    if kept.len() > 0 {
        authors_are_finite(kept.drop_last());
    }
}

proof fn paths_are_finite(changes: Seq<GitFileChangeView>)
    ensures
        ownership::contributed_paths(changes).finite(),
    decreases changes.len(),
{
    if changes.len() > 0 {
        paths_are_finite(changes.drop_last());
    }
}

/// Every change that adds or deletes lines stands with its file and its author, with its lines.
pub proof fn work_is_credited(
    changes: Seq<GitFileChangeView>,
    head_commit_time: i64,
    i: int,
) -> (found: (int, int, int))
    requires
        0 <= i < changes.len() <= u64::MAX,
        is_work_on(changes[i], changes[i].path),
    ensures
        ({
            let rows = ownership::contributions(changes, head_commit_time);
            &&& 0 <= found.0 < rows.len()
            &&& rows[found.0].path == changes[i].path
            &&& 0 <= found.1 < rows[found.0].authors.len()
            &&& rows[found.0].authors[found.1].author == changes[i].author
            &&& 0 <= found.2 < rows[found.0].authors[found.1].lines.len()
            &&& are_lines_of(
                rows[found.0].authors[found.1].lines[found.2],
                changes,
                changes[i],
                head_commit_time,
            )
        }),
{
    let path = changes[i].path;
    let author = changes[i].author;
    let paths = table::listing(ownership::contributed_paths(changes));
    let kept = ownership::contributions_to(changes, changes, head_commit_time, path);
    let one = ownership::contribution_of(changes, changes[i], head_commit_time);
    work_is_kept(changes, changes, head_commit_time, i);
    paths_are_finite(changes);
    table::listing_of_finite(ownership::contributed_paths(changes));
    assert(paths.to_set().contains(path));
    let a = choose|a: int| 0 <= a < paths.len() && paths[a] == path;
    let k = choose|k: int| 0 <= k < kept.len() && kept[k] == one;
    authored_work_is_kept(kept, k);
    let authors = table::listing(ownership::authors_of(kept));
    authors_are_finite(kept);
    table::listing_of_finite(ownership::authors_of(kept));
    assert(authors.to_set().contains(author));
    let b = choose|b: int| 0 <= b < authors.len() && authors[b] == author;
    let own = ownership::made_by(kept, author);
    let c = choose|c: int| 0 <= c < own.len() && own[c] == one;
    touched_paths(changes, changes[i].commit_id);
    let rows = ownership::contributions(changes, head_commit_time);
    assert(rows[a] == ownership::path_summary(path, kept));
    assert(rows[a].authors[b] == ownership::author_summary(kept, author));
    assert(rows[a].authors[b].lines[c] == one.lines);
    (a, b, c)
}

/// The changes of an author that add or delete lines of a file.
pub open spec fn work_of(
    changes: Seq<GitFileChangeView>,
    path: Seq<char>,
    author: Seq<char>,
) -> Set<int> {
    Set::new(
        |i: int|
            0 <= i < changes.len() && is_work_on(changes[i], path) && changes[i].author == author,
    )
}

/// The commits in which an author adds or deletes lines of a file.
pub open spec fn commits_in(
    changes: Seq<GitFileChangeView>,
    path: Seq<char>,
    author: Seq<char>,
) -> Set<Seq<char>> {
    Set::new(
        |id: Seq<char>|
            exists|i: int|
                work_of(changes, path, author).contains(i) && (#[trigger] changes[i]).commit_id
                    == id,
    )
}

proof fn work_is_counted(
    all: Seq<GitFileChangeView>,
    changes: Seq<GitFileChangeView>,
    head_commit_time: i64,
    path: Seq<char>,
    author: Seq<char>,
)
    ensures
        ({
            let own = ownership::made_by(
                ownership::contributions_to(all, changes, head_commit_time, path),
                author,
            );
            &&& work_of(changes, path, author).finite()
            &&& work_of(changes, path, author).len() == own.len()
            &&& ownership::commits_of(own) == commits_in(changes, path, author)
            &&& ownership::commits_of(own).finite()
            &&& ownership::commits_of(own).len() <= changes.len()
        }),
    decreases changes.len(),
{
    let here = work_of(changes, path, author);
    let kept = ownership::contributions_to(all, changes, head_commit_time, path);
    let own = ownership::made_by(kept, author);
    if changes.len() == 0 {
        assert(here =~= Set::empty());
        assert(ownership::commits_of(own) =~= commits_in(changes, path, author));
    } else {
        let front = changes.drop_last();
        let last = changes.len() - 1;
        work_is_counted(all, front, head_commit_time, path, author);
        let before = work_of(front, path, author);
        let kept_before = ownership::contributions_to(all, front, head_commit_time, path);
        let own_before = ownership::made_by(kept_before, author);
        assert(!before.contains(last));
        let one = ownership::contribution_of(all, changes[last], head_commit_time);
        if is_work_on(changes[last], path) {
            assert(kept.drop_last() =~= kept_before);
            assert(kept.last() == one);
        }
        if here.contains(last) {
            assert(here =~= before.insert(last));
            assert(own == own_before.push(one));
            assert(own.drop_last() =~= own_before);
        } else {
            assert(here =~= before);
        }
        assert forall|id: Seq<char>| #[trigger]
            commits_in(changes, path, author).contains(id) == (commits_in(
                front,
                path,
                author,
            ).contains(id) || (here.contains(last) && changes[last].commit_id == id)) by {
            if commits_in(changes, path, author).contains(id) {
                let i = choose|i: int|
                    here.contains(i) && (#[trigger] changes[i]).commit_id == id;
                if i < last {
                    assert(before.contains(i));
                    assert(front[i].commit_id == id);
                }
            }
            if commits_in(front, path, author).contains(id) {
                let i = choose|i: int|
                    before.contains(i) && (#[trigger] front[i]).commit_id == id;
                assert(here.contains(i));
                assert(changes[i].commit_id == id);
            }
        }
        assert(ownership::commits_of(own) =~= commits_in(changes, path, author));
    }
}

/// An author of a file has the lines of each change of theirs, and the commits of all of them,
/// each counted once.
pub proof fn authors_have_their_work(
    changes: Seq<GitFileChangeView>,
    head_commit_time: i64,
    a: int,
    b: int,
)
    requires
        changes.len() <= u64::MAX,
        0 <= a < ownership::contributions(changes, head_commit_time).len(),
        0 <= b < ownership::contributions(changes, head_commit_time)[a].authors.len(),
    ensures
        ({
            let row = ownership::contributions(changes, head_commit_time)[a];
            let author = row.authors[b];
            &&& author.lines.len() == work_of(changes, row.path, author.author).len()
            &&& author.meaningful_commits == commits_in(changes, row.path, author.author).len()
        }),
{
    let row = ownership::contributions(changes, head_commit_time)[a];
    work_is_counted(changes, changes, head_commit_time, row.path, row.authors[b].author);
}

/// Whether an owner has enough of a share, or stands at one of the first three places.
pub open spec fn stands_out(owner: OperationalOwnerShareView, rank: int) -> bool {
    rank <= 2 || measure::is_at_least(owner.share.bits, 0x3FB9_9999_9999_999A)
}

/// Whether an owner has done enough.
pub open spec fn has_done_enough(owner: OperationalOwnerShareView, line_floor: u64) -> bool {
    owner.meaningful_commits > 2 || measure::is_at_least(owner.effective_lines.bits, line_floor)
}

/// Owners who are shown stand out and have done enough.
pub proof fn shown_owners_stand_out(
    owners: Seq<OperationalOwnerShareView>,
    line_floor: u64,
    k: int,
) -> (rank: int)
    requires
        0 <= k < ownership::shown_owners(owners, line_floor).len(),
    ensures
        0 <= rank < owners.len(),
        ownership::shown_owners(owners, line_floor)[k] == owners[rank],
        k <= 2,
        stands_out(owners[rank], rank),
        has_done_enough(owners[rank], line_floor),
    decreases owners.len(),
{
    ownership::owners_are_shown_or_not(owners, line_floor);
    let front = owners.drop_last();
    let before = ownership::shown_owners(front, line_floor);
    if k < before.len() {
        let rank = shown_owners_stand_out(front, line_floor, k);
        assert(front[rank] == owners[rank]);
        rank
    } else {
        owners.len() - 1
    }
}

/// An owner who stands out and has done enough is shown, unless three others are.
pub proof fn owners_who_stand_out_are_shown(
    owners: Seq<OperationalOwnerShareView>,
    line_floor: u64,
    rank: int,
)
    requires
        0 <= rank < owners.len(),
        stands_out(owners[rank], rank),
        has_done_enough(owners[rank], line_floor),
    ensures
        ownership::shown_owners(owners, line_floor).contains(owners[rank])
            || ownership::shown_owners(owners, line_floor).len() == 3,
    decreases owners.len(),
{
    ownership::owners_are_shown_or_not(owners, line_floor);
    let front = owners.drop_last();
    let before = ownership::shown_owners(front, line_floor);
    let all = ownership::shown_owners(owners, line_floor);
    ownership::owners_are_shown_or_not(front, line_floor);
    if rank < owners.len() - 1 {
        assert(front[rank] == owners[rank]);
        owners_who_stand_out_are_shown(front, line_floor, rank);
        if before.contains(owners[rank]) {
            let k = choose|k: int| 0 <= k < before.len() && before[k] == owners[rank];
            assert(all[k] == owners[rank]);
        }
    } else if before.len() < 3 {
        assert(all[all.len() - 1] == owners[rank]);
    }
}

} // verus!
