//! Files that change together.

use vstd::prelude::*;

use crate::git::{GitCoChange, GitCoChangeView, GitFileChange, GitFileChangeView};
use crate::order;
use crate::order::{KeyPart, Ordered};
use crate::table;
use crate::table::{TextMap, TextSet};
use crate::text;

verus! {

/// Commits that touch more paths than this count for no pair.
pub const MAX_PAIRWISE_CO_CHANGE_PATHS: usize = 100;

/// The paths that commit `commit` touches.
pub open spec fn commit_paths(changes: Seq<GitFileChangeView>, commit: Seq<char>) -> Set<Seq<char>>
    decreases changes.len(),
{
    if changes.len() == 0 {
        Set::empty()
    } else {
        let front = commit_paths(changes.drop_last(), commit);
        if changes.last().commit_id == commit {
            front.insert(changes.last().path)
        } else {
            front
        }
    }
}

/// The commits of the change events.
pub open spec fn commit_ids(changes: Seq<GitFileChangeView>) -> Set<Seq<char>>
    decreases changes.len(),
{
    if changes.len() == 0 {
        Set::empty()
    } else {
        commit_ids(changes.drop_last()).insert(changes.last().commit_id)
    }
}

/// A commit has paths exactly where it has change events.
proof fn commit_paths_facts(changes: Seq<GitFileChangeView>, commit: Seq<char>)
    ensures
        commit_paths(changes, commit).finite(),
        commit_ids(changes).finite(),
        commit_ids(changes).contains(commit) <==> commit_paths(changes, commit).len() > 0,
    decreases changes.len(),
{
    if changes.len() > 0 {
        commit_paths_facts(changes.drop_last(), commit);
        let front = commit_paths(changes.drop_last(), commit);
        if changes.last().commit_id == commit {
            assert(front.insert(changes.last().path).contains(changes.last().path));
        }
    }
}

/// What a table of commits and their paths says of the change events.
pub open spec fn groups_match(
    groups: Map<Seq<char>, TextSet>,
    changes: Seq<GitFileChangeView>,
) -> bool {
    &&& groups.dom() == commit_ids(changes)
    &&& forall|commit: Seq<char>| #[trigger]
        groups.dom().contains(commit) ==> groups[commit].wf() && groups[commit]@ == commit_paths(
            changes,
            commit,
        )
}

/// The paths that each commit touches.
pub(crate) fn paths_by_commit(changes: &[GitFileChange]) -> (out: TextMap<TextSet>)
    ensures
        out.wf(),
        groups_match(out@, changes.deep_view()),
{
    let ghost all = changes.deep_view();
    let mut out: TextMap<TextSet> = TextMap::new();
    let mut i: usize = 0;
    assert(out@.dom() =~= commit_ids(all.take(0)));
    while i < changes.len()
        invariant
            i <= changes.len(),
            all == changes.deep_view(),
            out.wf(),
            groups_match(out@, all.take(i as int)),
        decreases changes.len() - i,
    {
        let change = &changes[i];
        let ghost before = out@;
        let ghost seen = all.take(i as int);
        let ghost now = all.take(i + 1);
        let ghost commit = change.commit_id@;
        proof {
            assert(now.drop_last() =~= seen);
            assert(now.last() == change.deep_view());
            commit_paths_facts(seen, commit);
        }
        match out.position(change.commit_id.as_str()) {
            Some(at) => {
                let mut paths = out.replace_at(at, TextSet::new());
                paths.insert(change.path.as_str());
                out.replace_at(at, paths);
            },
            None => {
                let mut paths = TextSet::new();
                paths.insert(change.path.as_str());
                assert(commit_paths(seen, commit) =~= Set::<Seq<char>>::empty());
                out.insert(change.commit_id.as_str(), paths);
            },
        }
        proof {
            assert(out@.dom() =~= commit_ids(now));
            assert forall|c: Seq<char>| #[trigger] out@.dom().contains(c) implies out@[c].wf()
                && out@[c]@ == commit_paths(now, c) by {
                if c != commit {
                    assert(before.dom().contains(c));
                    assert(out@[c] == before[c]);
                }
            }
        }
        i = i + 1;
    }
    assert(all.take(i as int) =~= all);
    out
}

/// Whether a commit touches both paths and few enough paths to count.
pub open spec fn touches_both(
    changes: Seq<GitFileChangeView>,
    left: Seq<char>,
    right: Seq<char>,
) -> spec_fn(Seq<char>) -> bool {
    |commit: Seq<char>|
        {
            let paths = commit_paths(changes, commit);
            &&& paths.contains(left)
            &&& paths.contains(right)
            &&& paths.len() <= MAX_PAIRWISE_CO_CHANGE_PATHS
        }
}

/// The commits that count for a pair of paths.
pub open spec fn shared_commits(
    changes: Seq<GitFileChangeView>,
    left: Seq<char>,
    right: Seq<char>,
) -> Set<Seq<char>> {
    commit_ids(changes).filter(touches_both(changes, left, right))
}

impl Ordered for GitCoChange {
    /// Pairs are ordered by commit count, largest first, then by their paths.
    open spec fn key(v: GitCoChangeView) -> Seq<KeyPart> {
        seq![
            KeyPart::Number(-(v.commit_count as int)),
            KeyPart::Text(v.left_path),
            KeyPart::Text(v.right_path),
        ]
    }

    fn comes_before(&self, other: &Self) -> (r: bool) {
        proof {
            reveal_with_fuel(order::key_lt_from, 4);
        }
        if self.commit_count != other.commit_count {
            return self.commit_count > other.commit_count;
        }
        if text::precedes(self.left_path.as_str(), other.left_path.as_str()) {
            return true;
        }
        if text::precedes(other.left_path.as_str(), self.left_path.as_str()) {
            return false;
        }
        text::precedes(self.right_path.as_str(), other.right_path.as_str())
    }
}

/// The count that a table of pairs holds for a pair.
spec fn count_of(
    table: Map<Seq<char>, TextMap<u64>>,
    left: Seq<char>,
    right: Seq<char>,
) -> nat {
    if table.dom().contains(left) && table[left]@.dom().contains(right) {
        table[left]@[right] as nat
    } else {
        0
    }
}

spec fn counts_wf(table: TextMap<TextMap<u64>>) -> bool {
    &&& table.wf()
    &&& forall|left: Seq<char>| #[trigger] table@.dom().contains(left) ==> table@[left].wf()
    &&& forall|left: Seq<char>, right: Seq<char>|
        table@.dom().contains(left) && #[trigger] table@[left]@.dom().contains(right)
            ==> table@[left]@[right] > 0
}

/// Counts a pair once more.
fn bump(table: &mut TextMap<TextMap<u64>>, left: &str, right: &str)
    requires
        counts_wf(*old(table)),
        count_of(old(table)@, left@, right@) < u64::MAX,
    ensures
        counts_wf(*final(table)),
        forall|x: Seq<char>, y: Seq<char>|
            #![trigger count_of(final(table)@, x, y)]
            count_of(final(table)@, x, y) == count_of(old(table)@, x, y) + if x == left@ && y
                == right@ {
                1nat
            } else {
                0nat
            },
{
    let ghost before = table@;
    let ghost row_before = if before.dom().contains(left@) {
        before[left@]@
    } else {
        Map::<Seq<char>, u64>::empty()
    };
    match table.position(left) {
        Some(at) => {
            let mut row = table.replace_at(at, TextMap::new());
            let n: u64 = match row.get(right) {
                Some(n) => *n,
                None => 0,
            };
            row.insert(right, n + 1);
            table.replace_at(at, row);
        },
        None => {
            let mut row: TextMap<u64> = TextMap::new();
            row.insert(right, 1);
            table.insert(left, row);
        },
    }
    proof {
        assert(table@ =~= before.insert(left@, table@[left@]));
        assert(table@[left@]@.dom() =~= row_before.dom().insert(right@));
        assert forall|x: Seq<char>, y: Seq<char>|
            table@.dom().contains(x) && #[trigger] table@[x]@.dom().contains(
                y,
            ) implies table@[x]@[y] > 0 by {
            if x != left@ {
                assert(before[x]@.dom().contains(y));
            } else if y != right@ {
                assert(row_before.dom().contains(y));
                assert(before[x]@.dom().contains(y));
            }
        }
        assert forall|x: Seq<char>| #[trigger] table@.dom().contains(x) implies table@[x].wf() by {
            if x != left@ {
                assert(before.dom().contains(x));
            }
        }
    }
}

/// Of the commits at the first `n` keys, those that count for a pair.
spec fn counted(
    changes: Seq<GitFileChangeView>,
    keys: Seq<Seq<char>>,
    n: int,
    left: Seq<char>,
    right: Seq<char>,
) -> Set<Seq<char>> {
    keys.take(n).to_set().filter(touches_both(changes, left, right))
}

proof fn counted_step(
    changes: Seq<GitFileChangeView>,
    keys: Seq<Seq<char>>,
    n: int,
    left: Seq<char>,
    right: Seq<char>,
)
    requires
        0 <= n < keys.len(),
        keys.no_duplicates(),
    ensures
        counted(changes, keys, n, left, right).finite(),
        counted(changes, keys, n, left, right).len() <= n,
        counted(changes, keys, n + 1, left, right).len() == counted(
            changes,
            keys,
            n,
            left,
            right,
        ).len() + if touches_both(changes, left, right)(keys[n]) {
            1nat
        } else {
            0nat
        },
{
    let f = touches_both(changes, left, right);
    let seen = keys.take(n);
    let next = keys.take(n + 1);
    assert(next =~= seen.push(keys[n]));
    assert(next.to_set() =~= seen.to_set().insert(keys[n])) by {
        assert forall|x: Seq<char>| #[trigger] next.to_set().contains(x) <==> seen.to_set().insert(
            keys[n],
        ).contains(x) by {
            if seen.to_set().contains(x) {
                let i = choose|i: int| 0 <= i < seen.len() && seen[i] == x;
                assert(next[i] == x);
            }
            if x == keys[n] {
                assert(next[n] == x);
            }
        }
    }
    vstd::seq_lib::seq_to_set_is_finite(seen);
    seen.to_set().lemma_len_filter(f);
    seen.lemma_cardinality_of_set();
    assert(!seen.contains(keys[n]));
    if f(keys[n]) {
        assert(next.to_set().filter(f) =~= seen.to_set().filter(f).insert(keys[n]));
    } else {
        assert(next.to_set().filter(f) =~= seen.to_set().filter(f));
    }
}

/// Whether pair number (`i`, `j`) of `t` or an earlier one is (`left`, `right`).
spec fn pair_done(
    t: Seq<Seq<char>>,
    i: int,
    j: int,
    left: Seq<char>,
    right: Seq<char>,
) -> bool {
    exists|a: int, b: int|
        0 <= a < b < t.len() && (a < i || (a == i && b < j)) && #[trigger] t[a] == left
            && #[trigger] t[b] == right
}

/// Counts every pair of the paths of one commit.
fn count_pairs(table: &mut TextMap<TextMap<u64>>, paths: &TextSet)
    requires
        counts_wf(*old(table)),
        paths.wf(),
        forall|x: Seq<char>, y: Seq<char>| #[trigger] count_of(old(table)@, x, y) < u64::MAX,
    ensures
        counts_wf(*final(table)),
        forall|x: Seq<char>, y: Seq<char>|
            #![trigger count_of(final(table)@, x, y)]
            count_of(final(table)@, x, y) == count_of(old(table)@, x, y) + if text::text_lt(x, y)
                && paths@.contains(x) && paths@.contains(y) {
                1nat
            } else {
                0nat
            },
{
    let ghost t = paths.items.deep_view();
    let ghost before = table@;
    proof {
        table::ascending_has_no_duplicates(t);
    }
    let mut i: usize = 0;
    while i < paths.items.len()
        invariant
            i <= paths.items.len(),
            t == paths.items.deep_view(),
            t.no_duplicates(),
            counts_wf(*table),
            forall|x: Seq<char>, y: Seq<char>| #[trigger] count_of(before, x, y) < u64::MAX,
            forall|x: Seq<char>, y: Seq<char>|
                #![trigger count_of(table@, x, y)]
                count_of(table@, x, y) == count_of(before, x, y) + if pair_done(
                    t,
                    i as int,
                    0,
                    x,
                    y,
                ) {
                    1nat
                } else {
                    0nat
                },
        decreases paths.items.len() - i,
    {
        let mut j: usize = i + 1;
        proof {
            assert forall|x: Seq<char>, y: Seq<char>| pair_done(t, i as int, 0, x, y) == pair_done(
                t,
                i as int,
                j as int,
                x,
                y,
            ) by {}
        }
        while j < paths.items.len()
            invariant
                i < j <= paths.items.len(),
                t == paths.items.deep_view(),
                t.no_duplicates(),
                counts_wf(*table),
                forall|x: Seq<char>, y: Seq<char>| #[trigger] count_of(before, x, y) < u64::MAX,
                forall|x: Seq<char>, y: Seq<char>|
                    #![trigger count_of(table@, x, y)]
                    count_of(table@, x, y) == count_of(before, x, y) + if pair_done(
                        t,
                        i as int,
                        j as int,
                        x,
                        y,
                    ) {
                        1nat
                    } else {
                        0nat
                    },
            decreases paths.items.len() - j,
        {
            let ghost inner = table@;
            let ghost left = t[i as int];
            let ghost right = t[j as int];
            proof {
                if pair_done(t, i as int, j as int, left, right) {
                    let (a, b) = choose|a: int, b: int|
                        0 <= a < b < t.len() && (a < i || (a == i && b < j)) && #[trigger] t[a]
                            == left && #[trigger] t[b] == right;
                    assert(a == i);
                    assert(b == j);
                }
                assert(count_of(table@, left, right) < u64::MAX);
            }
            bump(table, paths.items[i].as_str(), paths.items[j].as_str());
            proof {
                assert forall|x: Seq<char>, y: Seq<char>|
                    #![trigger count_of(table@, x, y)]
                    count_of(table@, x, y) == count_of(before, x, y) + if pair_done(
                        t,
                        i as int,
                        j + 1,
                        x,
                        y,
                    ) {
                        1nat
                    } else {
                        0nat
                    } by {
                    assert(count_of(inner, x, y) == count_of(inner, x, y));
                    if pair_done(t, i as int, j + 1, x, y) && !pair_done(
                        t,
                        i as int,
                        j as int,
                        x,
                        y,
                    ) {
                        let (a, b) = choose|a: int, b: int|
                            0 <= a < b < t.len() && (a < i || (a == i && b < j + 1)) && #[trigger] t[a]
                                == x && #[trigger] t[b] == y;
                        assert(a == i && b == j);
                    }
                    if pair_done(t, i as int, j as int, x, y) {
                        let (a, b) = choose|a: int, b: int|
                            0 <= a < b < t.len() && (a < i || (a == i && b < j)) && #[trigger] t[a]
                                == x && #[trigger] t[b] == y;
                        assert(t[a] == x && t[b] == y);
                        assert(pair_done(t, i as int, j + 1, x, y));
                    }
                    if x == left && y == right {
                        assert(t[i as int] == x && t[j as int] == y);
                        assert(pair_done(t, i as int, j + 1, x, y));
                    }
                }
            }
            j = j + 1;
        }
        proof {
            assert forall|x: Seq<char>, y: Seq<char>| pair_done(
                t,
                i as int,
                j as int,
                x,
                y,
            ) == pair_done(t, i + 1, 0, x, y) by {
                if pair_done(t, i as int, j as int, x, y) {
                    let (a, b) = choose|a: int, b: int|
                        0 <= a < b < t.len() && (a < i || (a == i && b < j)) && #[trigger] t[a] == x
                            && #[trigger] t[b] == y;
                    assert(t[a] == x && t[b] == y);
                }
                if pair_done(t, i + 1, 0, x, y) {
                    let (a, b) = choose|a: int, b: int|
                        0 <= a < b < t.len() && (a < i + 1 || (a == i + 1 && b < 0)) && #[trigger] t[a]
                            == x && #[trigger] t[b] == y;
                    assert(t[a] == x && t[b] == y);
                }
            }
        }
        i = i + 1;
    }
    proof {
        assert forall|x: Seq<char>, y: Seq<char>| pair_done(t, i as int, 0, x, y) == (
        text::text_lt(x, y) && paths@.contains(x) && paths@.contains(y)) by {
            if pair_done(t, i as int, 0, x, y) {
                let (a, b) = choose|a: int, b: int|
                    0 <= a < b < t.len() && (a < i || (a == i && b < 0)) && #[trigger] t[a] == x
                        && #[trigger] t[b] == y;
                assert(text::text_lt(t[a], t[b]));
            }
            if text::text_lt(x, y) && paths@.contains(x) && paths@.contains(y) {
                let a = choose|a: int| 0 <= a < t.len() && t[a] == x;
                let b = choose|b: int| 0 <= b < t.len() && t[b] == y;
                text::text_lt_irreflexive(x);
                if b < a {
                    assert(text::text_lt(t[b], t[a]));
                    text::text_lt_transitive(x, y, x);
                }
                assert(t[a] == x && t[b] == y);
            }
        }
    }
}

/// What the co-change rows say: each unordered pair of paths that some counted commit
/// touches has one row with the number of those commits, the rows being in order.
pub open spec fn is_co_change_table(
    rows: Seq<GitCoChangeView>,
    changes: Seq<GitFileChangeView>,
) -> bool {
    &&& forall|i: int|
        0 <= i < rows.len() ==> text::text_lt(
            (#[trigger] rows[i]).left_path,
            rows[i].right_path,
        ) && rows[i].commit_count > 0 && rows[i].commit_count == shared_commits(
            changes,
            rows[i].left_path,
            rows[i].right_path,
        ).len()
    &&& forall|left: Seq<char>, right: Seq<char>|
        text::text_lt(left, right) && #[trigger] shared_commits(changes, left, right).len() > 0
            ==> exists|i: int|
            0 <= i < rows.len() && (#[trigger] rows[i]).left_path == left && rows[i].right_path
                == right
    &&& rows.no_duplicates()
    &&& order::is_sorted_by(rows, order::by_key::<GitCoChange>())
}

/// The rows of the first `n` left paths.
spec fn listed(
    rows: Seq<GitCoChangeView>,
    table: Map<Seq<char>, TextMap<u64>>,
    lefts: Seq<Seq<char>>,
    n: int,
) -> bool {
    &&& forall|k: int|
        0 <= k < rows.len() ==> (#[trigger] rows[k]).commit_count == count_of(
            table,
            rows[k].left_path,
            rows[k].right_path,
        ) && rows[k].commit_count > 0
    &&& forall|a: int, right: Seq<char>|
        0 <= a < n && table[#[trigger] lefts[a]]@.dom().contains(right) ==> #[trigger] has_row(
            rows,
            lefts[a],
            right,
        )
    &&& forall|k: int|
        0 <= k < rows.len() ==> exists|a: int|
            0 <= a < n && #[trigger] lefts[a] == (#[trigger] rows[k]).left_path
    &&& rows.no_duplicates()
}

/// Whether there is a row for a pair.
spec fn has_row(rows: Seq<GitCoChangeView>, left: Seq<char>, right: Seq<char>) -> bool {
    exists|k: int|
        0 <= k < rows.len() && (#[trigger] rows[k]).left_path == left && rows[k].right_path
            == right
}

proof fn has_row_of_push(
    rows: Seq<GitCoChangeView>,
    row: GitCoChangeView,
    left: Seq<char>,
    right: Seq<char>,
)
    ensures
        has_row(rows, left, right) ==> has_row(rows.push(row), left, right),
        row.left_path == left && row.right_path == right ==> has_row(rows.push(row), left, right),
{
    if has_row(rows, left, right) {
        let k = choose|k: int|
            0 <= k < rows.len() && (#[trigger] rows[k]).left_path == left && rows[k].right_path
                == right;
        assert(rows.push(row)[k] == rows[k]);
    }
    assert(rows.push(row)[rows.len() as int] == row);
}

fn rows_of(table: TextMap<TextMap<u64>>) -> (out: Vec<GitCoChange>)
    requires
        counts_wf(table),
    ensures
        listed(
            out.deep_view(),
            table@,
            table.keys.deep_view(),
            table.keys.len() as int,
        ),
{
    let ghost lefts = table.keys.deep_view();
    proof {
        table::ascending_has_no_duplicates(lefts);
    }
    let mut out: Vec<GitCoChange> = Vec::new();
    let mut i: usize = 0;
    while i < table.keys.len()
        invariant
            i <= table.keys.len(),
            counts_wf(table),
            lefts == table.keys.deep_view(),
            lefts.no_duplicates(),
            listed(out.deep_view(), table@, lefts, i as int),
        decreases table.keys.len() - i,
    {
        proof {
            table.at_index(i as int);
        }
        let row = &table.values[i];
        let ghost left = lefts[i as int];
        let ghost rights = row.keys.deep_view();
        let ghost done = out.deep_view();
        proof {
            assert(table@[left] == *row);
            assert(row.wf());
            table::ascending_has_no_duplicates(rights);
        }
        let mut j: usize = 0;
        while j < row.keys.len()
            invariant
                i < table.keys.len(),
                j <= row.keys.len(),
                counts_wf(table),
                lefts == table.keys.deep_view(),
                lefts.no_duplicates(),
                left == lefts[i as int],
                table@.dom().contains(left),
                *row == table@[left],
                row.wf(),
                rights == row.keys.deep_view(),
                rights.no_duplicates(),
                listed(done, table@, lefts, i as int),
                forall|k: int|
                    0 <= k < out.deep_view().len() ==> (#[trigger] out.deep_view()[k]).commit_count
                        == count_of(
                        table@,
                        out.deep_view()[k].left_path,
                        out.deep_view()[k].right_path,
                    ) && out.deep_view()[k].commit_count > 0,
                forall|a: int, right: Seq<char>|
                    0 <= a < i && table@[#[trigger] lefts[a]]@.dom().contains(right)
                        ==> #[trigger] has_row(out.deep_view(), lefts[a], right),
                forall|b: int| 0 <= b < j ==> has_row(out.deep_view(), left, #[trigger] rights[b]),
                forall|k: int|
                    0 <= k < out.deep_view().len() ==> (exists|a: int|
                        0 <= a < i && #[trigger] lefts[a] == (
                        #[trigger] out.deep_view()[k]).left_path) || (out.deep_view()[k].left_path
                        == left && exists|b: int|
                        0 <= b < j && #[trigger] rights[b] == out.deep_view()[k].right_path),
                out.deep_view().no_duplicates(),
            decreases row.keys.len() - j,
        {
            let ghost before = out.deep_view();
            let ghost right = rights[j as int];
            proof {
                row.at_index(j as int);
            }
            let new = GitCoChange {
                left_path: table.keys[i].clone(),
                right_path: row.keys[j].clone(),
                commit_count: row.values[j],
            };
            let ghost value = new.deep_view();
            out.push(new);
            proof {
                let after = out.deep_view();
                assert(after =~= before.push(value));
                assert(value.left_path == left && value.right_path == right);
                assert(count_of(table@, left, right) == value.commit_count);
                assert forall|l: Seq<char>, r: Seq<char>| has_row(before, l, r) implies #[trigger] has_row(
                    after,
                    l,
                    r,
                ) by {
                    has_row_of_push(before, value, l, r);
                }
                has_row_of_push(before, value, left, right);
                assert(!before.contains(value)) by {
                    if before.contains(value) {
                        let k = choose|k: int| 0 <= k < before.len() && before[k] == value;
                        assert(before[k].left_path == left);
                        assert(before[k].right_path == right);
                    }
                }
                assert(after.no_duplicates());
                assert(rights[j as int] == after[before.len() as int].right_path);
                assert forall|k: int| 0 <= k < after.len() implies (exists|a: int|
                    0 <= a < i && #[trigger] lefts[a] == (#[trigger] after[k]).left_path) || (
                after[k].left_path == left && exists|b: int|
                    0 <= b < j + 1 && #[trigger] rights[b] == after[k].right_path) by {
                    if k < before.len() {
                        assert(after[k] == before[k]);
                    }
                }
            }
            j = j + 1;
        }
        proof {
            let rows = out.deep_view();
            assert forall|a: int, right: Seq<char>|
                0 <= a < i + 1 && table@[#[trigger] lefts[a]]@.dom().contains(
                    right,
                ) implies #[trigger] has_row(rows, lefts[a], right) by {
                if a == i {
                    let b = row.index_of_key(right);
                    assert(rights[b] == right);
                }
            }
            assert forall|k: int| 0 <= k < rows.len() implies exists|a: int|
                0 <= a < i + 1 && #[trigger] lefts[a] == (#[trigger] rows[k]).left_path by {
                assert(lefts[i as int] == left);
            }
        }
        i = i + 1;
    }
    out
}

/// Aggregates raw file changes into co-change counts.
///
/// Each commit contributes at most one count for any unordered pair of touched
/// paths. Returned pairs are ranked by count descending, then left path
/// ascending, then right path ascending.
pub fn co_changes_from_changes(changes: &[GitFileChange]) -> (out: Vec<GitCoChange>)
    ensures
        is_co_change_table(out.deep_view(), changes.deep_view()),
{
    let ghost all = changes.deep_view();
    let groups = paths_by_commit(changes);
    let ghost commits = groups.keys.deep_view();
    let mut table: TextMap<TextMap<u64>> = TextMap::new();
    proof {
        table::ascending_has_no_duplicates(commits);
        assert forall|x: Seq<char>, y: Seq<char>| counted(all, commits, 0, x, y).len() == 0 by {
            assert(counted(all, commits, 0, x, y) =~= Set::<Seq<char>>::empty());
        }
        assert(commits.to_set() =~= commit_ids(all)) by {
            assert forall|c: Seq<char>| commits.to_set().contains(c) <==> commit_ids(
                all,
            ).contains(c) by {
                assert(groups@.dom().contains(c) <==> commits.contains(c));
            }
        }
    }
    let mut k: usize = 0;
    while k < groups.keys.len()
        invariant
            k <= groups.keys.len(),
            all == changes.deep_view(),
            groups.wf(),
            groups_match(groups@, all),
            commits == groups.keys.deep_view(),
            commits.no_duplicates(),
            counts_wf(table),
            forall|x: Seq<char>, y: Seq<char>|
                #![trigger count_of(table@, x, y)]
                count_of(table@, x, y) == if text::text_lt(x, y) {
                    counted(all, commits, k as int, x, y).len()
                } else {
                    0
                },
        decreases groups.keys.len() - k,
    {
        let ghost before = table@;
        let ghost commit = commits[k as int];
        proof {
            groups.at_index(k as int);
            assert forall|x: Seq<char>, y: Seq<char>| #[trigger]
                count_of(table@, x, y) < u64::MAX by {
                counted_step(all, commits, k as int, x, y);
            }
        }
        let paths = &groups.values[k];
        assert(*paths == groups@[commit]);
        if paths.len() <= MAX_PAIRWISE_CO_CHANGE_PATHS {
            count_pairs(&mut table, paths);
        }
        proof {
            assert forall|x: Seq<char>, y: Seq<char>|
                #![trigger count_of(table@, x, y)]
                count_of(table@, x, y) == if text::text_lt(x, y) {
                    counted(all, commits, k + 1, x, y).len()
                } else {
                    0
                } by {
                counted_step(all, commits, k as int, x, y);
                assert(count_of(before, x, y) == count_of(before, x, y));
            }
        }
        k = k + 1;
    }
    let ghost lefts = table.keys.deep_view();
    let ghost counts = table@;
    proof {
        assert(commits.take(commits.len() as int) =~= commits);
        assert forall|x: Seq<char>, y: Seq<char>|
            #![trigger shared_commits(all, x, y)]
            count_of(counts, x, y) == if text::text_lt(x, y) {
                shared_commits(all, x, y).len()
            } else {
                0
            } by {
            assert(counted(all, commits, k as int, x, y) == shared_commits(all, x, y));
        }
    }
    let rows = rows_of(table);
    let ghost unsorted = rows.deep_view();
    let out = order::sort(rows);
    proof {
        let sorted = out.deep_view();
        let lt = order::by_key::<GitCoChange>();
        order::by_key_is_strict_weak::<GitCoChange>();
        order::sorted_by_permutes(unsorted, lt);
        order::sorted_by_is_sorted(unsorted, lt);
        unsorted.lemma_multiset_has_no_duplicates();
        sorted.lemma_multiset_has_no_duplicates_conv();
        assert forall|i: int| 0 <= i < sorted.len() implies text::text_lt(
            (#[trigger] sorted[i]).left_path,
            sorted[i].right_path,
        ) && sorted[i].commit_count > 0 && sorted[i].commit_count == shared_commits(
            all,
            sorted[i].left_path,
            sorted[i].right_path,
        ).len() by {
            assert(sorted.contains(sorted[i]));
            order::contains_by_multiset(sorted, unsorted, sorted[i]);
            let j = choose|j: int| 0 <= j < unsorted.len() && unsorted[j] == sorted[i];
            assert(unsorted[j].commit_count > 0);
        }
        assert forall|left: Seq<char>, right: Seq<char>|
            text::text_lt(left, right) && #[trigger] shared_commits(
                all,
                left,
                right,
            ).len() > 0 implies exists|i: int|
            0 <= i < sorted.len() && (#[trigger] sorted[i]).left_path == left
                && sorted[i].right_path == right by {
            assert(count_of(counts, left, right) > 0);
            let a = choose|a: int| 0 <= a < lefts.len() && lefts[a] == left;
            assert(lefts[a] == left);
            assert(has_row(unsorted, lefts[a], right));
            let j = choose|j: int|
                0 <= j < unsorted.len() && (#[trigger] unsorted[j]).left_path == left
                    && unsorted[j].right_path == right;
            assert(unsorted.contains(unsorted[j]));
            order::contains_by_multiset(unsorted, sorted, unsorted[j]);
            let i = choose|i: int| 0 <= i < sorted.len() && sorted[i] == unsorted[j];
            assert(sorted[i].left_path == left);
        }
    }
    out
}

pub proof fn commit_paths_are_touched(
    changes: Seq<GitFileChangeView>,
    commit: Seq<char>,
    path: Seq<char>,
)
    ensures
        commit_paths(changes, commit).contains(path) <==> exists|i: int|
            0 <= i < changes.len() && (#[trigger] changes[i]).commit_id == commit && changes[i].path
                == path,
    decreases changes.len(),
{
    if changes.len() > 0 {
        let front = changes.drop_last();
        commit_paths_are_touched(front, commit, path);
        if commit_paths(front, commit).contains(path) {
            let i = choose|i: int|
                0 <= i < front.len() && (#[trigger] front[i]).commit_id == commit && front[i].path
                    == path;
            assert(changes[i] == front[i]);
        }
        if exists|i: int|
            0 <= i < changes.len() && (#[trigger] changes[i]).commit_id == commit && changes[i].path
                == path {
            let i = choose|i: int|
                0 <= i < changes.len() && (#[trigger] changes[i]).commit_id == commit
                    && changes[i].path == path;
            if i < front.len() {
                assert(front[i] == changes[i]);
            }
        }
        assert(changes[changes.len() - 1] == changes.last());
    }
}

proof fn same_events_same_paths(
    a: Seq<GitFileChangeView>,
    b: Seq<GitFileChangeView>,
    commit: Seq<char>,
)
    requires
        a.to_set() == b.to_set(),
    ensures
        commit_paths(a, commit) == commit_paths(b, commit),
        commit_ids(a).contains(commit) == commit_ids(b).contains(commit),
{
    assert forall|p: Seq<char>| commit_paths(a, commit).contains(p) == commit_paths(
        b,
        commit,
    ).contains(p) by {
        commit_paths_are_touched(a, commit, p);
        commit_paths_are_touched(b, commit, p);
        if commit_paths(a, commit).contains(p) {
            let i = choose|i: int|
                0 <= i < a.len() && (#[trigger] a[i]).commit_id == commit && a[i].path == p;
            assert(a.to_set().contains(a[i]));
            assert(b.to_set().contains(a[i]));
            let j = choose|j: int| 0 <= j < b.len() && b[j] == a[i];
            assert(b[j].commit_id == commit);
        }
        if commit_paths(b, commit).contains(p) {
            let i = choose|i: int|
                0 <= i < b.len() && (#[trigger] b[i]).commit_id == commit && b[i].path == p;
            assert(b.to_set().contains(b[i]));
            assert(a.to_set().contains(b[i]));
            let j = choose|j: int| 0 <= j < a.len() && a[j] == b[i];
            assert(a[j].commit_id == commit);
        }
    }
    assert(commit_paths(a, commit) =~= commit_paths(b, commit));
    commit_paths_facts(a, commit);
    commit_paths_facts(b, commit);
}

/// The co-change rows depend on which change events there are, not on their order or
/// on how often one comes.
pub proof fn co_changes_ignore_arrival(
    a: Seq<GitFileChangeView>,
    b: Seq<GitFileChangeView>,
    rows: Seq<GitCoChangeView>,
)
    requires
        a.to_set() == b.to_set(),
        is_co_change_table(rows, a),
    ensures
        is_co_change_table(rows, b),
{
    assert forall|left: Seq<char>, right: Seq<char>| #[trigger] shared_commits(a, left, right)
        == shared_commits(b, left, right) by {
        assert forall|c: Seq<char>| shared_commits(a, left, right).contains(c) == shared_commits(
            b,
            left,
            right,
        ).contains(c) by {
            same_events_same_paths(a, b, c);
        }
        assert(shared_commits(a, left, right) =~= shared_commits(b, left, right));
    }
    assert forall|left: Seq<char>, right: Seq<char>|
        text::text_lt(left, right) && #[trigger] shared_commits(
            b,
            left,
            right,
        ).len() > 0 implies exists|i: int|
        0 <= i < rows.len() && (#[trigger] rows[i]).left_path == left && rows[i].right_path
            == right by {
        assert(shared_commits(a, left, right).len() > 0);
    }
    assert forall|i: int| 0 <= i < rows.len() implies rows[i].commit_count == shared_commits(
        b,
        (#[trigger] rows[i]).left_path,
        rows[i].right_path,
    ).len() by {
        assert(shared_commits(a, rows[i].left_path, rows[i].right_path) == shared_commits(
            b,
            rows[i].left_path,
            rows[i].right_path,
        ));
    }
}

/// There is one co-change table for given change events.
pub proof fn co_change_table_is_unique(
    changes: Seq<GitFileChangeView>,
    first: Seq<GitCoChangeView>,
    second: Seq<GitCoChangeView>,
)
    requires
        is_co_change_table(first, changes),
        is_co_change_table(second, changes),
    ensures
        first == second,
{
    let lt = order::by_key::<GitCoChange>();
    same_rows(changes, first, second);
    same_rows(changes, second, first);
    first.lemma_multiset_has_no_duplicates();
    second.lemma_multiset_has_no_duplicates();
    assert(first.to_multiset() =~= second.to_multiset()) by {
        broadcast use vstd::seq_lib::group_to_multiset_ensures;

        assert forall|r: GitCoChangeView| first.to_multiset().count(r) == second.to_multiset().count(
            r,
        ) by {
            assert(first.contains(r) <==> second.contains(r));
        }
    }
    assert forall|i: int, j: int|
        0 <= i < first.len() && 0 <= j < first.len() && !lt(first[i], first[j]) && !lt(
            first[j],
            first[i],
        ) implies #[trigger] first[i] == #[trigger] first[j] by {
        reveal_with_fuel(order::key_lt_from, 4);
        text::text_lt_total(first[i].left_path, first[j].left_path);
        text::text_lt_total(first[i].right_path, first[j].right_path);
    }
    order::sorted_arrangement_is_unique(first, second, lt);
}

proof fn same_rows(
    changes: Seq<GitFileChangeView>,
    first: Seq<GitCoChangeView>,
    second: Seq<GitCoChangeView>,
)
    requires
        is_co_change_table(first, changes),
        is_co_change_table(second, changes),
    ensures
        forall|r: GitCoChangeView| first.contains(r) ==> second.contains(r),
{
    assert forall|r: GitCoChangeView| first.contains(r) implies second.contains(r) by {
        let i = choose|i: int| 0 <= i < first.len() && first[i] == r;
        assert(first[i] == r);
        assert(shared_commits(changes, r.left_path, r.right_path).len() > 0);
        let j = choose|j: int|
            0 <= j < second.len() && (#[trigger] second[j]).left_path == r.left_path
                && second[j].right_path == r.right_path;
        assert(second[j] == r);
    }
}

/// A path's count of co-changed files does not grow beyond this.
pub const CO_CHANGED_FILE_COUNT_SATURATION: u64 = 25;

/// The paths of the change events.
pub open spec fn changed_paths(changes: Seq<GitFileChangeView>) -> Set<Seq<char>>
    decreases changes.len(),
{
    if changes.len() == 0 {
        Set::empty()
    } else {
        changed_paths(changes.drop_last()).insert(changes.last().path)
    }
}

/// Whether some commit touches both paths.
pub open spec fn change_together(
    changes: Seq<GitFileChangeView>,
    path: Seq<char>,
    other: Seq<char>,
) -> bool {
    exists|commit: Seq<char>|
        (#[trigger] commit_paths(changes, commit)).contains(path) && commit_paths(
            changes,
            commit,
        ).contains(other)
}

/// The other files in commits that touch `path`.
pub open spec fn co_changed_files(
    changes: Seq<GitFileChangeView>,
    path: Seq<char>,
) -> Set<Seq<char>> {
    changed_paths(changes).filter(
        |other: Seq<char>| other != path && change_together(changes, path, other),
    )
}

/// The number of co-changed files of `path`, up to the saturation.
pub open spec fn co_changed_count(changes: Seq<GitFileChangeView>, path: Seq<char>) -> nat {
    let n = co_changed_files(changes, path).len();
    if n > CO_CHANGED_FILE_COUNT_SATURATION {
        CO_CHANGED_FILE_COUNT_SATURATION as nat
    } else {
        n
    }
}

proof fn commit_paths_are_changed(changes: Seq<GitFileChangeView>, commit: Seq<char>)
    ensures
        commit_paths(changes, commit).subset_of(changed_paths(changes)),
        changed_paths(changes).finite(),
    decreases changes.len(),
{
    if changes.len() > 0 {
        commit_paths_are_changed(changes.drop_last(), commit);
    }
}

/// The other files in those of the first `n` commits that touch `path`.
spec fn co_changed_within(
    changes: Seq<GitFileChangeView>,
    commits: Seq<Seq<char>>,
    n: int,
    path: Seq<char>,
) -> Set<Seq<char>> {
    changed_paths(changes).filter(
        |other: Seq<char>|
            other != path && exists|a: int|
                0 <= a < n && commit_paths(changes, #[trigger] commits[a]).contains(path)
                    && commit_paths(changes, commits[a]).contains(other),
    )
}

proof fn co_changed_within_step(
    changes: Seq<GitFileChangeView>,
    commits: Seq<Seq<char>>,
    n: int,
    path: Seq<char>,
)
    requires
        0 <= n < commits.len(),
    ensures
        co_changed_within(changes, commits, n, path).finite(),
        co_changed_within(changes, commits, n + 1, path).finite(),
        co_changed_within(changes, commits, n + 1, path) == if commit_paths(
            changes,
            commits[n],
        ).contains(path) {
            co_changed_within(changes, commits, n, path).union(
                commit_paths(changes, commits[n]).remove(path),
            )
        } else {
            co_changed_within(changes, commits, n, path)
        },
{
    let now = co_changed_within(changes, commits, n, path);
    let next = co_changed_within(changes, commits, n + 1, path);
    let here = commit_paths(changes, commits[n]);
    commit_paths_are_changed(changes, commits[n]);
    let expected = if here.contains(path) {
        now.union(here.remove(path))
    } else {
        now
    };
    assert forall|q: Seq<char>| next.contains(q) == expected.contains(q) by {
        if next.contains(q) {
            let a = choose|a: int|
                0 <= a < n + 1 && commit_paths(changes, #[trigger] commits[a]).contains(path)
                    && commit_paths(changes, commits[a]).contains(q);
            if a < n {
                assert(commit_paths(changes, commits[a]).contains(q));
            }
        }
        if expected.contains(q) {
            if now.contains(q) {
                let a = choose|a: int|
                    0 <= a < n && commit_paths(changes, #[trigger] commits[a]).contains(path)
                        && commit_paths(changes, commits[a]).contains(q);
                assert(commit_paths(changes, commits[a]).contains(q));
            } else {
                assert(commit_paths(changes, commits[n]).contains(q));
            }
        }
    }
    assert(next =~= expected);
    changed_paths(changes).lemma_len_filter(
        |other: Seq<char>|
            other != path && exists|a: int|
                0 <= a < n && commit_paths(changes, #[trigger] commits[a]).contains(path)
                    && commit_paths(changes, commits[a]).contains(other),
    );
    commit_paths_facts(changes, commits[n]);
}

/// Adds the members of `paths` other than `path`, until the set is saturated.
fn widen(set: &mut TextSet, paths: &TextSet, path: &str)
    requires
        old(set).wf(),
        paths.wf(),
        old(set)@.len() <= CO_CHANGED_FILE_COUNT_SATURATION,
    ensures
        final(set).wf(),
        final(set)@.finite(),
        final(set)@.len() <= CO_CHANGED_FILE_COUNT_SATURATION,
        old(set)@.subset_of(final(set)@),
        final(set)@.subset_of(old(set)@.union(paths@.remove(path@))),
        final(set)@ == old(set)@.union(paths@.remove(path@)) || final(set)@.len()
            == CO_CHANGED_FILE_COUNT_SATURATION,
{
    let ghost before = set@;
    let ghost t = paths.items.deep_view();
    let mut i: usize = 0;
    let mut len: usize = set.len();
    while i < paths.items.len() && (len as u64) < CO_CHANGED_FILE_COUNT_SATURATION
        invariant
            i <= paths.items.len(),
            t == paths.items.deep_view(),
            set.wf(),
            set@.finite(),
            len == set@.len(),
            len <= CO_CHANGED_FILE_COUNT_SATURATION,
            before.subset_of(set@),
            set@.subset_of(before.union(paths@.remove(path@))),
            forall|j: int| 0 <= j < i ==> #[trigger] t[j] == path@ || set@.contains(t[j]),
        decreases paths.items.len() - i,
    {
        let item = &paths.items[i];
        assert(t[i as int] == item@);
        assert(paths@.contains(t[i as int]));
        if !text::same(item.as_str(), path) {
            set.insert(item.as_str());
            len = set.len();
        }
        i = i + 1;
    }
    proof {
        if i == paths.items.len() {
            assert forall|q: Seq<char>| before.union(paths@.remove(path@)).contains(
                q,
            ) implies set@.contains(q) by {
                if !before.contains(q) {
                    let j = choose|j: int| 0 <= j < t.len() && t[j] == q;
                    assert(t[j] == q);
                }
            }
            assert(set@ =~= before.union(paths@.remove(path@)));
        }
    }
}

/// What the table of co-changed files holds for a path once the first `n` commits
/// have been seen: all of them, or as many as saturate the count.
spec fn co_changed_so_far(
    table: Map<Seq<char>, TextSet>,
    changes: Seq<GitFileChangeView>,
    commits: Seq<Seq<char>>,
    n: int,
    path: Seq<char>,
) -> bool {
    let files = co_changed_within(changes, commits, n, path);
    if table.dom().contains(path) {
        let set = table[path]@;
        &&& table[path].wf()
        &&& set.finite()
        &&& 0 < set.len() <= CO_CHANGED_FILE_COUNT_SATURATION
        &&& set.subset_of(files)
        &&& set == files || set.len() == CO_CHANGED_FILE_COUNT_SATURATION
    } else {
        files == Set::<Seq<char>>::empty()
    }
}

/// Adds the co-changed files that one commit gives for each of its paths.
fn add_co_changed(
    table: &mut TextMap<TextSet>,
    paths: &TextSet,
    Ghost(changes): Ghost<Seq<GitFileChangeView>>,
    Ghost(commits): Ghost<Seq<Seq<char>>>,
    Ghost(n): Ghost<int>,
)
    requires
        old(table).wf(),
        paths.wf(),
        0 <= n < commits.len(),
        paths@ == commit_paths(changes, commits[n]),
        forall|p: Seq<char>| #[trigger]
            co_changed_so_far(old(table)@, changes, commits, n, p),
    ensures
        final(table).wf(),
        forall|p: Seq<char>| #[trigger]
            co_changed_so_far(final(table)@, changes, commits, n + 1, p),
{
    let ghost t = paths.items.deep_view();
    proof {
        table::ascending_has_no_duplicates(t);
    }
    let mut i: usize = 0;
    while i < paths.items.len()
        invariant
            i <= paths.items.len(),
            t == paths.items.deep_view(),
            t.no_duplicates(),
            table.wf(),
            paths.wf(),
            0 <= n < commits.len(),
            paths@ == commit_paths(changes, commits[n]),
            forall|p: Seq<char>| #[trigger]
                t.take(i as int).contains(p) ==> co_changed_so_far(
                    table@,
                    changes,
                    commits,
                    n + 1,
                    p,
                ),
            forall|p: Seq<char>| #[trigger]
                co_changed_so_far(table@, changes, commits, n, p) || t.take(i as int).contains(p),
        decreases paths.items.len() - i,
    {
        let path = &paths.items[i];
        let ghost before = table@;
        let ghost p = t[i as int];
        let ghost files = co_changed_within(changes, commits, n, p);
        proof {
            assert(p == path@);
            assert(paths@.contains(p));
            co_changed_within_step(changes, commits, n, p);
            assert(co_changed_so_far(table@, changes, commits, n, p)) by {
                if t.take(i as int).contains(p) {
                    let j = choose|j: int| 0 <= j < i && t.take(i as int)[j] == p;
                    assert(t[j] == p);
                }
            }
        }
        match table.position(path.as_str()) {
            Some(at) => {
                let mut set = table.replace_at(at, TextSet::new());
                widen(&mut set, paths, path.as_str());
                proof {
                    vstd::set_lib::lemma_len_subset(before[p]@, set@);
                }
                table.replace_at(at, set);
            },
            None => {
                let mut set = TextSet::new();
                widen(&mut set, paths, path.as_str());
                let found: usize = set.len();
                if found > 0 {
                    table.insert(path.as_str(), set);
                } else {
                    assert(set@ =~= Set::<Seq<char>>::empty());
                    assert(files.union(paths@.remove(p)) =~= set@);
                }
            },
        }
        proof {
            let grown = co_changed_within(changes, commits, n + 1, p);
            assert(grown == files.union(paths@.remove(p)));
            if table@.dom().contains(p) {
                let set = table@[p]@;
                if before.dom().contains(p) {
                    if set.len() != CO_CHANGED_FILE_COUNT_SATURATION {
                        assert(before[p]@.len() <= set.len());
                        assert(set =~= grown);
                    }
                } else {
                    assert(files =~= Set::<Seq<char>>::empty());
                    if set.len() != CO_CHANGED_FILE_COUNT_SATURATION {
                        assert(set =~= grown);
                    }
                }
            }
            assert(co_changed_so_far(table@, changes, commits, n + 1, p));
            assert forall|q: Seq<char>| #[trigger] t.take(i + 1).contains(
                q,
            ) implies co_changed_so_far(table@, changes, commits, n + 1, q) by {
                if q != p {
                    let longer = t.take(i + 1);
                    let j = choose|j: int| 0 <= j < longer.len() && longer[j] == q;
                    assert(t.take(i as int)[j] == q);
                    assert(t.take(i as int).contains(q));
                    assert(co_changed_so_far(before, changes, commits, n + 1, q));
                }
            }
            assert forall|q: Seq<char>| #[trigger]
                co_changed_so_far(table@, changes, commits, n, q) || t.take(i + 1).contains(q) by {
                if q == p {
                    assert(t.take(i + 1)[i as int] == q);
                } else if t.take(i as int).contains(q) {
                    let j = choose|j: int| 0 <= j < i && t.take(i as int)[j] == q;
                    assert(t.take(i + 1)[j] == q);
                } else {
                    assert(co_changed_so_far(before, changes, commits, n, q));
                }
            }
        }
        i = i + 1;
    }
    proof {
        assert(t.take(i as int) =~= t);
        assert forall|p: Seq<char>| #[trigger]
            co_changed_so_far(table@, changes, commits, n + 1, p) by {
            co_changed_within_step(changes, commits, n, p);
            if t.contains(p) {
            } else {
                assert(co_changed_so_far(table@, changes, commits, n, p));
                assert(!paths@.contains(p));
            }
        }
    }
}

/// The number of co-changed files of each path that has any, up to the saturation.
pub fn co_changed_file_counts_from_changes(changes: &[GitFileChange]) -> (out: TextMap<u64>)
    ensures
        out.wf(),
        forall|path: Seq<char>|
            #![trigger out@.dom().contains(path)]
            out@.dom().contains(path) <==> co_changed_files(changes.deep_view(), path).len() > 0,
        forall|path: Seq<char>| #[trigger]
            out@.dom().contains(path) ==> out@[path] == co_changed_count(changes.deep_view(), path),
{
    let ghost all = changes.deep_view();
    let groups = paths_by_commit(changes);
    let ghost commits = groups.keys.deep_view();
    let mut table: TextMap<TextSet> = TextMap::new();
    proof {
        assert forall|p: Seq<char>| #[trigger] co_changed_so_far(table@, all, commits, 0, p) by {
            assert(co_changed_within(all, commits, 0, p) =~= Set::<Seq<char>>::empty());
        }
    }
    let mut k: usize = 0;
    while k < groups.keys.len()
        invariant
            k <= groups.keys.len(),
            all == changes.deep_view(),
            groups.wf(),
            groups_match(groups@, all),
            commits == groups.keys.deep_view(),
            table.wf(),
            forall|p: Seq<char>| #[trigger]
                co_changed_so_far(table@, all, commits, k as int, p),
        decreases groups.keys.len() - k,
    {
        proof {
            groups.at_index(k as int);
        }
        add_co_changed(&mut table, &groups.values[k], Ghost(all), Ghost(commits), Ghost(k as int));
        k = k + 1;
    }
    proof {
        assert forall|p: Seq<char>|
            #![trigger co_changed_files(all, p)]
            co_changed_files(all, p).finite() && co_changed_within(all, commits, k as int, p)
                == co_changed_files(all, p) by {
            let within = co_changed_within(all, commits, k as int, p);
            let files = co_changed_files(all, p);
            commit_paths_are_changed(all, p);
            changed_paths(all).lemma_len_filter(
                |other: Seq<char>| other != p && change_together(all, p, other),
            );
            assert forall|q: Seq<char>| within.contains(q) == files.contains(q) by {
                if within.contains(q) {
                    let a = choose|a: int|
                        0 <= a < k && commit_paths(all, #[trigger] commits[a]).contains(p)
                            && commit_paths(all, commits[a]).contains(q);
                    assert(change_together(all, p, q));
                }
                if files.contains(q) {
                    let c = choose|c: Seq<char>|
                        (#[trigger] commit_paths(all, c)).contains(p) && commit_paths(
                            all,
                            c,
                        ).contains(q);
                    commit_paths_facts(all, c);
                    assert(groups@.dom().contains(c));
                    let a = groups.index_of_key(c);
                    assert(commit_paths(all, commits[a]).contains(q));
                }
            }
            assert(within =~= files);
        }
    }
    let mut counts: Vec<u64> = Vec::new();
    let mut i: usize = 0;
    while i < table.keys.len()
        invariant
            i <= table.keys.len(),
            all == changes.deep_view(),
            table.wf(),
            counts.len() == i,
            forall|p: Seq<char>| #[trigger]
                co_changed_so_far(table@, all, commits, k as int, p),
            forall|p: Seq<char>|
                #![trigger co_changed_files(all, p)]
                co_changed_files(all, p).finite() && co_changed_within(all, commits, k as int, p)
                    == co_changed_files(all, p),
            forall|j: int|
                0 <= j < i ==> #[trigger] counts@[j] == co_changed_count(
                    all,
                    table.keys.deep_view()[j],
                ),
        decreases table.keys.len() - i,
    {
        let ghost path = table.keys.deep_view()[i as int];
        proof {
            table.at_index(i as int);
            assert(co_changed_so_far(table@, all, commits, k as int, path));
            vstd::set_lib::lemma_len_subset(table@[path]@, co_changed_files(all, path));
        }
        let n: usize = table.values[i].len();
        counts.push(n as u64);
        i = i + 1;
    }
    let ghost keys = table.keys.deep_view();
    let out = TextMap { keys: table.keys, values: counts };
    proof {
        assert(out.keys.deep_view() == keys);
        assert forall|path: Seq<char>|
            #![trigger out@.dom().contains(path)]
            out@.dom().contains(path) <==> co_changed_files(all, path).len() > 0 by {
            assert(out@.dom().contains(path) <==> table@.dom().contains(path));
            assert(co_changed_so_far(table@, all, commits, k as int, path));
            if table@.dom().contains(path) {
                vstd::set_lib::lemma_len_subset(table@[path]@, co_changed_files(all, path));
            }
        }
        assert forall|path: Seq<char>| #[trigger]
            out@.dom().contains(path) implies out@[path] == co_changed_count(all, path) by {
            let j = out.index_of_key(path);
            assert(counts@[j] == co_changed_count(all, keys[j]));
        }
    }
    out
}

} // verus!
