//! What is told of a history, and how it is asked for.

use vstd::prelude::*;

use crate::git::engine;
use crate::git::explain;
use crate::git::explain::{RelatedCoChange, RelatedCoChangeView};
use crate::git::history;
use crate::git::{GitCoChangeView, GitFileMetricsView};
use crate::numbers;
use crate::order;
use crate::text;

verus! {

/// Whether a pair joins two files.
pub open spec fn joins(pair: GitCoChangeView, path: Seq<char>, other: Seq<char>) -> bool {
    (pair.left_path == path && pair.right_path == other) || (pair.left_path == other
        && pair.right_path == path)
}

proof fn partners_are_kept(
    pairs: Seq<GitCoChangeView>,
    path: Seq<char>,
    i: int,
    other: Seq<char>,
)
    requires
        0 <= i < pairs.len(),
        joins(pairs[i], path, other),
        path != other,
    ensures
        explain::partners(pairs, path).contains(
            RelatedCoChangeView { path: other, commit_count: pairs[i].commit_count },
        ),
    decreases pairs.len(),
{
    let one = RelatedCoChangeView { path: other, commit_count: pairs[i].commit_count };
    let all = explain::partners(pairs, path);
    if i < pairs.len() - 1 {
        let front = pairs.drop_last();
        assert(front[i] == pairs[i]);
        partners_are_kept(front, path, i, other);
        let before = explain::partners(front, path);
        let k = choose|k: int| 0 <= k < before.len() && before[k] == one;
        assert(all[k] == one);
    } else {
        assert(all[all.len() - 1] == one);
    }
}

/// The other file of every pair of a file is told of, with the commits of the pair.
pub proof fn partners_are_told_of(
    pairs: Seq<GitCoChangeView>,
    path: Seq<char>,
    i: int,
    other: Seq<char>,
) -> (k: int)
    requires
        0 <= i < pairs.len(),
        joins(pairs[i], path, other),
        path != other,
    ensures
        0 <= k < explain::related_to(pairs, path).len(),
        explain::related_to(pairs, path)[k].path == other,
        explain::related_to(pairs, path)[k].commit_count == pairs[i].commit_count,
{
    let all = explain::partners(pairs, path);
    let lt = order::by_key::<RelatedCoChange>();
    let one = RelatedCoChangeView { path: other, commit_count: pairs[i].commit_count };
    partners_are_kept(pairs, path, i, other);
    order::sorted_by_permutes(all, lt);
    order::contains_by_multiset(all, order::sorted_by(all, lt), one);
    let related = explain::related_to(pairs, path);
    choose|k: int| 0 <= k < related.len() && related[k] == one
}

proof fn kept_partners_have_a_pair(pairs: Seq<GitCoChangeView>, path: Seq<char>, k: int) -> (i: int)
    requires
        0 <= k < explain::partners(pairs, path).len(),
    ensures
        0 <= i < pairs.len(),
        joins(pairs[i], path, explain::partners(pairs, path)[k].path),
        explain::partners(pairs, path)[k].commit_count == pairs[i].commit_count,
    decreases pairs.len(),
{
    let front = pairs.drop_last();
    let before = explain::partners(front, path);
    if k < before.len() {
        let i = kept_partners_have_a_pair(front, path, k);
        assert(front[i] == pairs[i]);
        i
    } else {
        pairs.len() - 1
    }
}

/// Only the other files of the pairs of a file are told of.
pub proof fn only_partners_are_told_of(pairs: Seq<GitCoChangeView>, path: Seq<char>, k: int) -> (i:
    int)
    requires
        0 <= k < explain::related_to(pairs, path).len(),
    ensures
        0 <= i < pairs.len(),
        joins(pairs[i], path, explain::related_to(pairs, path)[k].path),
        explain::related_to(pairs, path)[k].commit_count == pairs[i].commit_count,
{
    let all = explain::partners(pairs, path);
    let lt = order::by_key::<RelatedCoChange>();
    let related = explain::related_to(pairs, path);
    order::sorted_by_permutes(all, lt);
    assert(related.contains(related[k]));
    order::contains_by_multiset(related, all, related[k]);
    let m = choose|m: int| 0 <= m < all.len() && all[m] == related[k];
    kept_partners_have_a_pair(pairs, path, m)
}

/// The files that changed together most often come first.
pub proof fn frequent_partners_come_first(
    pairs: Seq<GitCoChangeView>,
    path: Seq<char>,
    i: int,
    j: int,
)
    requires
        0 <= i < j < explain::related_to(pairs, path).len(),
    ensures
        explain::related_to(pairs, path)[i].commit_count >= explain::related_to(
            pairs,
            path,
        )[j].commit_count,
{
    let all = explain::partners(pairs, path);
    let lt = order::by_key::<RelatedCoChange>();
    order::by_key_is_strict_weak::<RelatedCoChange>();
    order::sorted_by_is_sorted(all, lt);
    let related = explain::related_to(pairs, path);
    let (a, b) = (related[i], related[j]);
    assert(!lt(b, a));
    let (x, y) = (
        <RelatedCoChange as order::Ordered>::key(b),
        <RelatedCoChange as order::Ordered>::key(a),
    );
    reveal_with_fuel(order::key_lt_from, 3);
    assert(lt(b, a) == order::key_lt_from(x, y, 0));
    assert(x[0] == order::KeyPart::Number(-(b.commit_count as int)));
    assert(y[0] == order::KeyPart::Number(-(a.commit_count as int)));
}

/// The metrics of a file are the first row of its path.
pub proof fn metrics_are_the_first_row(
    metrics: Seq<GitFileMetricsView>,
    path: Seq<char>,
    i: int,
)
    requires
        0 <= i < metrics.len(),
        metrics[i].path == path,
        forall|k: int| 0 <= k < i ==> (#[trigger] metrics[k]).path != path,
    ensures
        explain::metric_for(metrics, path) == Some(metrics[i]),
    decreases metrics.len(),
{
    let front = metrics.drop_last();
    if i < metrics.len() - 1 {
        assert(front[i] == metrics[i]);
        assert forall|k: int| 0 <= k < i implies (#[trigger] front[k]).path != path by {
            assert(front[k] == metrics[k]);
        }
        metrics_are_the_first_row(front, path, i);
    } else {
        assert forall|k: int| 0 <= k < front.len() implies (#[trigger] front[k]).path != path by {
            assert(front[k] == metrics[k]);
        }
        no_metrics(front, path);
    }
}

proof fn no_metrics(metrics: Seq<GitFileMetricsView>, path: Seq<char>)
    requires
        forall|k: int| 0 <= k < metrics.len() ==> (#[trigger] metrics[k]).path != path,
    ensures
        explain::metric_for(metrics, path) is None,
    decreases metrics.len(),
{
    if metrics.len() > 0 {
        let front = metrics.drop_last();
        assert(metrics[metrics.len() - 1].path != path);
        assert forall|k: int| 0 <= k < front.len() implies (#[trigger] front[k]).path != path by {
            assert(front[k] == metrics[k]);
        }
        no_metrics(front, path);
    }
}

/// The workers that a setting asks for are those in it, where that is a positive number; white
/// space around it does not matter.
pub proof fn settings_name_the_workers(
    before: Seq<char>,
    n: usize,
    after: Seq<char>,
    available: nat,
)
    requires
        n > 0,
        forall|i: int| 0 <= i < before.len() ==> text::is_white(#[trigger] before[i]),
        forall|i: int| 0 <= i < after.len() ==> text::is_white(#[trigger] after[i]),
    ensures
        history::worker_setting(Some(before + numbers::decimal(n as nat) + after), available) == n,
        history::worker_setting(None, available) == available,
        history::worker_setting(Some(before + numbers::decimal(0) + after), available)
            == available,
{
    let digits = numbers::decimal(n as nat);
    numbers::decimal_digits(n as nat);
    numbers::decimal_digits(0);
    assert(forall|c: char| '0' <= c <= '9' ==> !#[trigger] text::is_white(c));
    assert(digits[0] == digits[0] && digits.last() == digits[digits.len() - 1]);
    text::trimming_leaves_what_is_inside(before, digits, after);
    numbers::unsigned_decimal_round_trip(n as nat, usize::MAX as nat);
    let zero = numbers::decimal(0);
    assert(zero[0] == zero[0] && zero.last() == zero[zero.len() - 1]);
    text::trimming_leaves_what_is_inside(before, zero, after);
    numbers::unsigned_decimal_round_trip(0, usize::MAX as nat);
}

proof fn requests_have_a_line_each(ids: Seq<Seq<char>>)
    requires
        forall|i: int| 0 <= i < ids.len() ==> text::laws::is_word(#[trigger] ids[i]),
    ensures
        text::split_on(engine::request_text(ids), '\n') == ids.push(Seq::empty()),
    decreases ids.len(),
{
    reveal_strlit("\n");
    let whole = engine::request_text(ids);
    let none = Seq::<char>::empty();
    if ids.len() == 0 {
        assert(text::split_on(whole, '\n') =~= ids.push(none));
    } else {
        let front = ids.drop_last();
        let last = ids.last();
        assert(text::laws::is_word(ids[ids.len() - 1]));
        assert forall|i: int| 0 <= i < front.len() implies text::laws::is_word(
            #[trigger] front[i],
        ) by {
            assert(front[i] == ids[i]);
        }
        requests_have_a_line_each(front);
        let before = engine::request_text(front);
        assert(!last.contains('\n')) by {
            assert(text::is_white('\n'));
            assert forall|i: int| 0 <= i < last.len() implies last[i] != '\n' by {
                assert(!text::is_white(last[i]));
            }
        }
        text::split_on_of_concat(before, last, '\n');
        let pieces = front.push(none);
        assert(pieces.drop_last() =~= front);
        assert(none + last =~= last);
        assert(whole =~= (before + last).push('\n'));
        assert(whole.drop_last() =~= before + last);
        assert(front.push(last) =~= ids);
    }
}

/// What is asked for line by line is what a reader of the lines finds.
pub proof fn requests_are_read_back(ids: Seq<Seq<char>>)
    requires
        forall|i: int| 0 <= i < ids.len() ==> text::laws::is_word(#[trigger] ids[i]),
    ensures
        history::listed_commits(engine::request_text(ids)) == ids,
{
    let whole = engine::request_text(ids);
    requests_have_a_line_each(ids);
    let lines = text::lines(whole);
    assert(text::is_white('\r'));
    assert(lines =~= ids) by {
        assert forall|i: int| 0 <= i < ids.len() implies text::without_return(ids[i]) == ids[i] by {
            assert(text::laws::is_word(ids[i]));
            assert(!text::is_white(ids[i][ids[i].len() - 1]));
        }
    }
    let told = lines.map_values(|line: Seq<char>| text::trimmed(line));
    assert(told =~= ids) by {
        assert forall|i: int| 0 <= i < ids.len() implies text::trimmed(ids[i]) == ids[i] by {
            let none = Seq::<char>::empty();
            let s = ids[i];
            assert(text::laws::is_word(s));
            assert(!text::is_white(s[0]) && !text::is_white(s[s.len() - 1]));
            text::trimming_leaves_what_is_inside(none, s, none);
            assert(none + s + none =~= s);
        }
    }
    all_hold_text(ids);
}

proof fn all_hold_text(ids: Seq<Seq<char>>)
    requires
        forall|i: int| 0 <= i < ids.len() ==> text::laws::is_word(#[trigger] ids[i]),
    ensures
        ids.filter(history::holds_text()) == ids,
    decreases ids.len(),
{
    reveal(Seq::filter);
    if ids.len() > 0 {
        let front = ids.drop_last();
        assert(text::laws::is_word(ids[ids.len() - 1]));
        assert forall|i: int| 0 <= i < front.len() implies text::laws::is_word(
            #[trigger] front[i],
        ) by {
            assert(front[i] == ids[i]);
        }
        all_hold_text(front);
        assert(front.push(ids.last()) =~= ids);
    } else {
        assert(ids.filter(history::holds_text()) =~= ids);
    }
}

} // verus!
