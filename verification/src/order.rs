//! Stable sorting of vectors by an order on what their elements stand for.

use vstd::prelude::*;

use crate::text;

verus! {

/// A strict weak order: nothing precedes itself, precedence is transitive, and
/// so is being unordered.
pub open spec fn is_strict_weak_order<V>(lt: spec_fn(V, V) -> bool) -> bool {
    &&& forall|a: V| !#[trigger] lt(a, a)
    &&& forall|a: V, b: V, c: V| #[trigger] lt(a, b) && #[trigger] lt(b, c) ==> lt(a, c)
    &&& forall|a: V, b: V, c: V| !#[trigger] lt(a, b) && !#[trigger] lt(b, c) ==> !lt(a, c)
}

/// One part of a sort key.
pub enum KeyPart {
    /// A number, smaller ones first.
    Number(int),
    /// A text, in the order of texts.
    Text(Seq<char>),
}

/// Whether one part of a key comes before another; numbers come before texts.
pub open spec fn part_lt(a: KeyPart, b: KeyPart) -> bool {
    match (a, b) {
        (KeyPart::Number(x), KeyPart::Number(y)) => x < y,
        (KeyPart::Text(x), KeyPart::Text(y)) => text::text_lt(x, y),
        (KeyPart::Number(_), KeyPart::Text(_)) => true,
        (KeyPart::Text(_), KeyPart::Number(_)) => false,
    }
}

/// Whether key `a` comes before key `b` by the parts from index `i` on: the first
/// parts that differ decide.
pub open spec fn key_lt_from(a: Seq<KeyPart>, b: Seq<KeyPart>, i: int) -> bool
    decreases b.len() - i,
{
    if i >= b.len() {
        false
    } else if i >= a.len() {
        true
    } else if part_lt(a[i], b[i]) {
        true
    } else if part_lt(b[i], a[i]) {
        false
    } else {
        key_lt_from(a, b, i + 1)
    }
}

/// Whether key `a` comes before key `b`.
pub open spec fn key_lt(a: Seq<KeyPart>, b: Seq<KeyPart>) -> bool {
    key_lt_from(a, b, 0)
}

proof fn part_lt_irreflexive(a: KeyPart)
    ensures
        !part_lt(a, a),
{
    if let KeyPart::Text(x) = a {
        text::text_lt_irreflexive(x);
    }
}

proof fn part_lt_transitive(a: KeyPart, b: KeyPart, c: KeyPart)
    requires
        part_lt(a, b),
        part_lt(b, c),
    ensures
        part_lt(a, c),
{
    if let (KeyPart::Text(x), KeyPart::Text(y), KeyPart::Text(z)) = (a, b, c) {
        text::text_lt_transitive(x, y, z);
    }
}

proof fn part_lt_total(a: KeyPart, b: KeyPart)
    ensures
        part_lt(a, b) || part_lt(b, a) || a == b,
{
    if let (KeyPart::Text(x), KeyPart::Text(y)) = (a, b) {
        text::text_lt_total(x, y);
    }
}

proof fn key_lt_irreflexive(a: Seq<KeyPart>, i: int)
    requires
        0 <= i,
    ensures
        !key_lt_from(a, a, i),
    decreases a.len() - i,
{
    if i < a.len() {
        part_lt_irreflexive(a[i]);
        key_lt_irreflexive(a, i + 1);
    }
}

proof fn key_lt_transitive(a: Seq<KeyPart>, b: Seq<KeyPart>, c: Seq<KeyPart>, i: int)
    requires
        0 <= i,
        key_lt_from(a, b, i),
        key_lt_from(b, c, i),
    ensures
        key_lt_from(a, c, i),
    decreases b.len() - i,
{
    if i < a.len() && i < b.len() && i < c.len() {
        part_lt_total(a[i], b[i]);
        part_lt_total(b[i], c[i]);
        part_lt_irreflexive(a[i]);
        if part_lt(a[i], b[i]) && part_lt(b[i], c[i]) {
            part_lt_transitive(a[i], b[i], c[i]);
        } else if a[i] == b[i] && b[i] == c[i] {
            key_lt_transitive(a, b, c, i + 1);
        }
    }
}

/// Of two keys neither of which comes before the other, each compares with a third
/// as the other does.
proof fn key_tie_transitive(a: Seq<KeyPart>, b: Seq<KeyPart>, c: Seq<KeyPart>, i: int)
    requires
        0 <= i,
        !key_lt_from(a, b, i),
        !key_lt_from(b, c, i),
    ensures
        !key_lt_from(a, c, i),
    decreases c.len() - i,
{
    if i < a.len() && i < b.len() && i < c.len() {
        part_lt_total(a[i], b[i]);
        part_lt_total(b[i], c[i]);
        part_lt_total(a[i], c[i]);
        part_lt_irreflexive(a[i]);
        if part_lt(b[i], a[i]) && part_lt(c[i], b[i]) {
            part_lt_transitive(c[i], b[i], a[i]);
            if part_lt(a[i], c[i]) {
                part_lt_transitive(a[i], c[i], a[i]);
            }
        } else if a[i] == b[i] && b[i] == c[i] {
            key_tie_transitive(a, b, c, i + 1);
        }
    }
}

/// Values that are sorted by a key of their deep views.
pub trait Ordered: DeepView + Sized {
    /// The sort key.
    spec fn key(v: Self::V) -> Seq<KeyPart>;

    /// Whether `self` comes before `other`.
    fn comes_before(&self, other: &Self) -> (r: bool)
        ensures
            r == key_lt(Self::key(self.deep_view()), Self::key(other.deep_view())),
    ;
}

/// The order of the keys.
pub open spec fn by_key<T: Ordered>() -> spec_fn(T::V, T::V) -> bool {
    |a: T::V, b: T::V| key_lt(T::key(a), T::key(b))
}

/// The order of the keys is a strict weak order.
pub proof fn by_key_is_strict_weak<T: Ordered>()
    ensures
        is_strict_weak_order(by_key::<T>()),
{
    let lt = by_key::<T>();
    assert forall|a: T::V| !#[trigger] lt(a, a) by {
        key_lt_irreflexive(T::key(a), 0);
    }
    assert forall|a: T::V, b: T::V, c: T::V| #[trigger] lt(a, b) && #[trigger] lt(
        b,
        c,
    ) implies lt(a, c) by {
        key_lt_transitive(T::key(a), T::key(b), T::key(c), 0);
    }
    assert forall|a: T::V, b: T::V, c: T::V| !#[trigger] lt(a, b) && !#[trigger] lt(
        b,
        c,
    ) implies !lt(a, c) by {
        key_tie_transitive(T::key(a), T::key(b), T::key(c), 0);
    }
}

/// Where `x` goes in `s`: behind every element that it does not precede, counted
/// from the end.
pub open spec fn insert_position<V>(s: Seq<V>, x: V, lt: spec_fn(V, V) -> bool) -> nat
    decreases s.len(),
{
    if s.len() == 0 || !lt(x, s.last()) {
        s.len()
    } else {
        insert_position(s.drop_last(), x, lt)
    }
}

/// `s` in ascending order; elements of which neither precedes the other keep the
/// order they have in `s`.
pub open spec fn sorted_by<V>(s: Seq<V>, lt: spec_fn(V, V) -> bool) -> Seq<V>
    decreases s.len(),
{
    if s.len() == 0 {
        s
    } else {
        let front = sorted_by(s.drop_last(), lt);
        front.insert(insert_position(front, s.last(), lt) as int, s.last())
    }
}

proof fn insert_position_bounds<V>(s: Seq<V>, x: V, lt: spec_fn(V, V) -> bool)
    ensures
        insert_position(s, x, lt) <= s.len(),
    decreases s.len(),
{
    if s.len() > 0 && lt(x, s.last()) {
        insert_position_bounds(s.drop_last(), x, lt);
    }
}

/// Sorting neither adds nor drops elements.
pub proof fn sorted_by_permutes<V>(s: Seq<V>, lt: spec_fn(V, V) -> bool)
    ensures
        sorted_by(s, lt).to_multiset() == s.to_multiset(),
        sorted_by(s, lt).len() == s.len(),
    decreases s.len(),
{
    broadcast use vstd::seq_lib::group_to_multiset_ensures;

    if s.len() > 0 {
        let front = sorted_by(s.drop_last(), lt);
        sorted_by_permutes(s.drop_last(), lt);
        insert_position_bounds(front, s.last(), lt);
        assert(s =~= s.drop_last().push(s.last()));
    }
}

/// Whether no element of `s` precedes an earlier one.
pub open spec fn is_sorted_by<V>(s: Seq<V>, lt: spec_fn(V, V) -> bool) -> bool {
    forall|i: int, j: int| 0 <= i < j < s.len() ==> !lt(#[trigger] s[j], #[trigger] s[i])
}

/// Behind the insert position everything follows `x`, before it nothing does.
proof fn insert_position_splits<V>(s: Seq<V>, x: V, lt: spec_fn(V, V) -> bool)
    requires
        is_sorted_by(s, lt),
        is_strict_weak_order(lt),
    ensures
        insert_position(s, x, lt) <= s.len(),
        forall|i: int| insert_position(s, x, lt) <= i < s.len() ==> lt(x, #[trigger] s[i]),
        forall|i: int| 0 <= i < insert_position(s, x, lt) ==> !lt(x, #[trigger] s[i]),
    decreases s.len(),
{
    if s.len() > 0 {
        let front = s.drop_last();
        if lt(x, s.last()) {
            assert forall|i: int, j: int| 0 <= i < j < front.len() implies !lt(
                #[trigger] front[j],
                #[trigger] front[i],
            ) by {
                assert(front[i] == s[i] && front[j] == s[j]);
            }
            insert_position_splits(front, x, lt);
            assert forall|i: int|
                insert_position(s, x, lt) <= i < s.len() implies lt(x, #[trigger] s[i]) by {
                if i < front.len() {
                    assert(front[i] == s[i]);
                }
            }
            assert forall|i: int|
                0 <= i < insert_position(s, x, lt) implies !lt(x, #[trigger] s[i]) by {
                assert(front[i] == s[i]);
            }
        } else {
            assert forall|i: int| 0 <= i < s.len() implies !lt(x, #[trigger] s[i]) by {
                if i < s.len() - 1 {
                    assert(!lt(s[s.len() - 1], s[i]));
                }
            }
        }
    }
}

/// Sorting gives an ascending sequence.
pub proof fn sorted_by_is_sorted<V>(s: Seq<V>, lt: spec_fn(V, V) -> bool)
    requires
        is_strict_weak_order(lt),
    ensures
        is_sorted_by(sorted_by(s, lt), lt),
    decreases s.len(),
{
    if s.len() > 0 {
        let front = sorted_by(s.drop_last(), lt);
        let x = s.last();
        let p = insert_position(front, x, lt) as int;
        sorted_by_is_sorted(s.drop_last(), lt);
        insert_position_splits(front, x, lt);
        let whole = front.insert(p, x);
        assert forall|i: int, j: int| 0 <= i < j < whole.len() implies !lt(
            #[trigger] whole[j],
            #[trigger] whole[i],
        ) by {
            let oi = if i < p { i } else { i - 1 };
            let oj = if j < p { j } else { j - 1 };
            if i == p {
                assert(whole[j] == front[oj]);
                assert(lt(x, front[oj]));
                if lt(front[oj], x) {
                    assert(lt(x, x));
                }
            } else if j == p {
                assert(whole[i] == front[oi]);
                assert(!lt(x, front[oi]));
            } else {
                assert(whole[i] == front[oi]);
                assert(whole[j] == front[oj]);
            }
        }
    }
}

/// Whether neither of two values precedes the other.
pub open spec fn ties<V>(v: V, lt: spec_fn(V, V) -> bool) -> spec_fn(V) -> bool {
    |w: V| !lt(v, w) && !lt(w, v)
}

proof fn filter_none<V>(s: Seq<V>, keep: spec_fn(V) -> bool)
    requires
        forall|i: int| 0 <= i < s.len() ==> !keep(#[trigger] s[i]),
    ensures
        s.filter(keep) == Seq::<V>::empty(),
    decreases s.len(),
{
    reveal(Seq::filter);
    if s.len() > 0 {
        filter_none(s.drop_last(), keep);
    }
}

/// Sorting keeps the order of the elements that tie with any given value.
pub proof fn sorted_by_is_stable<V>(s: Seq<V>, lt: spec_fn(V, V) -> bool, v: V)
    requires
        is_strict_weak_order(lt),
    ensures
        sorted_by(s, lt).filter(ties(v, lt)) == s.filter(ties(v, lt)),
    decreases s.len(),
{
    reveal(Seq::filter);
    if s.len() > 0 {
        let keep = ties(v, lt);
        let front = sorted_by(s.drop_last(), lt);
        let x = s.last();
        let p = insert_position(front, x, lt) as int;
        sorted_by_is_stable(s.drop_last(), lt, v);
        sorted_by_is_sorted(s.drop_last(), lt);
        insert_position_splits(front, x, lt);
        let low = front.take(p);
        let high = front.skip(p);
        assert(front =~= low + high);
        assert(front.insert(p, x) =~= low + (seq![x] + high));
        Seq::filter_distributes_over_add(low, high, keep);
        Seq::filter_distributes_over_add(low, seq![x] + high, keep);
        Seq::filter_distributes_over_add(seq![x], high, keep);
        filter_none(seq![x].drop_last(), keep);
        assert(seq![x].last() == x);
        assert(seq![x].filter(keep) =~= if keep(x) {
            seq![x]
        } else {
            Seq::<V>::empty()
        });
        if keep(x) {
            assert forall|i: int| 0 <= i < high.len() implies !keep(#[trigger] high[i]) by {
                assert(high[i] == front[p + i]);
                assert(lt(x, front[p + i]));
            }
            filter_none(high, keep);
            assert(low.filter(keep) =~= low.filter(keep) + high.filter(keep));
            assert(low.filter(keep) + (seq![x] + Seq::<V>::empty()) =~= low.filter(keep).push(x));
        } else {
            assert(Seq::<V>::empty() + high.filter(keep) =~= high.filter(keep));
        }
    }
}

/// Whether elements of `s` that tie are equal.
pub open spec fn ties_are_equal<V>(s: Seq<V>, lt: spec_fn(V, V) -> bool) -> bool {
    forall|i: int, j: int|
        0 <= i < s.len() && 0 <= j < s.len() && !lt(s[i], s[j]) && !lt(s[j], s[i])
            ==> #[trigger] s[i] == #[trigger] s[j]
}

/// What one arrangement of some elements holds, every arrangement holds.
pub proof fn contains_by_multiset<V>(a: Seq<V>, b: Seq<V>, x: V)
    requires
        a.to_multiset() == b.to_multiset(),
        a.contains(x),
    ensures
        b.contains(x),
{
    broadcast use vstd::seq_lib::group_to_multiset_ensures;

    assert(a.to_multiset().count(x) > 0);
}

/// Two ascending arrangements of the same elements are equal where ties are.
pub proof fn sorted_arrangement_is_unique<V>(a: Seq<V>, b: Seq<V>, lt: spec_fn(V, V) -> bool)
    requires
        is_sorted_by(a, lt),
        is_sorted_by(b, lt),
        a.to_multiset() == b.to_multiset(),
        ties_are_equal(a, lt),
    ensures
        a == b,
    decreases a.len(),
{
    broadcast use vstd::seq_lib::group_to_multiset_ensures;

    assert(a.to_multiset().len() == a.len());
    assert(b.to_multiset().len() == b.len());
    if a.len() == 0 {
        assert(a =~= b);
    } else {
        let x = a.last();
        let y = b.last();
        contains_by_multiset(a, b, x);
        contains_by_multiset(b, a, y);
        let i = choose|i: int| 0 <= i < b.len() && b[i] == x;
        let j = choose|j: int| 0 <= j < a.len() && a[j] == y;
        assert(x == y) by {
            if i < b.len() - 1 && j < a.len() - 1 {
                assert(!lt(b[b.len() - 1], b[i]));
                assert(!lt(a[a.len() - 1], a[j]));
                assert(a[a.len() - 1] == a[j]);
            }
        }
        let front_a = a.drop_last();
        let front_b = b.drop_last();
        assert(a =~= front_a.push(x));
        assert(b =~= front_b.push(x));
        assert(front_a.to_multiset() =~= a.to_multiset().remove(x));
        assert(front_b.to_multiset() =~= b.to_multiset().remove(x));
        assert forall|i: int, j: int| 0 <= i < j < front_a.len() implies !lt(
            #[trigger] front_a[j],
            #[trigger] front_a[i],
        ) by {
            assert(front_a[i] == a[i] && front_a[j] == a[j]);
        }
        assert forall|i: int, j: int| 0 <= i < j < front_b.len() implies !lt(
            #[trigger] front_b[j],
            #[trigger] front_b[i],
        ) by {
            assert(front_b[i] == b[i] && front_b[j] == b[j]);
        }
        assert forall|i: int, j: int|
            0 <= i < front_a.len() && 0 <= j < front_a.len() && !lt(front_a[i], front_a[j]) && !lt(
                front_a[j],
                front_a[i],
            ) implies #[trigger] front_a[i] == #[trigger] front_a[j] by {
            assert(front_a[i] == a[i] && front_a[j] == a[j]);
        }
        sorted_arrangement_is_unique(front_a, front_b, lt);
    }
}

/// Sorting does not depend on the order in which the elements come, as long as
/// elements that tie are equal.
pub proof fn sorted_by_ignores_arrival<V>(s: Seq<V>, t: Seq<V>, lt: spec_fn(V, V) -> bool)
    requires
        is_strict_weak_order(lt),
        s.to_multiset() == t.to_multiset(),
        ties_are_equal(s, lt),
    ensures
        sorted_by(s, lt) == sorted_by(t, lt),
{
    let a = sorted_by(s, lt);
    let b = sorted_by(t, lt);
    sorted_by_permutes(s, lt);
    sorted_by_permutes(t, lt);
    sorted_by_is_sorted(s, lt);
    sorted_by_is_sorted(t, lt);
    assert forall|i: int, j: int|
        0 <= i < a.len() && 0 <= j < a.len() && !lt(a[i], a[j]) && !lt(
            a[j],
            a[i],
        ) implies #[trigger] a[i] == #[trigger] a[j] by {
        contains_by_multiset(a, s, a[i]);
        contains_by_multiset(a, s, a[j]);
        let k = choose|k: int| 0 <= k < s.len() && s[k] == a[i];
        let l = choose|l: int| 0 <= l < s.len() && s[l] == a[j];
        assert(s[k] == s[l]);
    }
    sorted_arrangement_is_unique(a, b, lt);
}

/// Sorts `items`; elements of which neither precedes the other keep their order.
pub fn sort<T: Ordered>(items: Vec<T>) -> (out: Vec<T>)
    ensures
        out.deep_view() == sorted_by(items.deep_view(), by_key::<T>()),
{
    let ghost all = items.deep_view();
    let mut out: Vec<T> = Vec::new();
    assert(out.deep_view() =~= sorted_by(all.take(0), by_key::<T>()));
    for x in it: items
        invariant
            it.seq() == items@,
            all == items.deep_view(),
            out.deep_view() == sorted_by(all.take(it.index() as int), by_key::<T>()),
    {
        let ghost before = out.deep_view();
        let ghost n = it.index() as int;
        let mut at: usize = out.len();
        assert(before.take(before.len() as int) =~= before);
        while at > 0 && x.comes_before(&out[at - 1])
            invariant
                at <= out.len(),
                before == out.deep_view(),
                insert_position(before, x.deep_view(), by_key::<T>()) == insert_position(
                    before.take(at as int),
                    x.deep_view(),
                    by_key::<T>(),
                ),
            decreases at,
        {
            assert(before.take(at as int).drop_last() =~= before.take(at - 1));
            at = at - 1;
        }
        proof {
            assert(at == insert_position(before, x.deep_view(), by_key::<T>()));
            assert(all.take(n + 1).drop_last() =~= all.take(n));
            assert(all.take(n + 1).last() == x.deep_view());
        }
        out.insert(at, x);
        assert(out.deep_view() =~= before.insert(at as int, all[n]));
    }
    assert(all.take(all.len() as int) =~= all);
    out
}

} // verus!
