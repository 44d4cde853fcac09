//! Sets and maps of texts, kept in ascending order of their keys.

use vstd::prelude::*;

use crate::text;
use crate::text::precedes;

verus! {

/// Whether the texts come in strictly ascending order.
pub open spec fn ascending(s: Seq<Seq<char>>) -> bool {
    forall|i: int, j: int| 0 <= i < j < s.len() ==> text::text_lt(#[trigger] s[i], #[trigger] s[j])
}

/// Texts in strictly ascending order are all different.
pub proof fn ascending_has_no_duplicates(s: Seq<Seq<char>>)
    requires
        ascending(s),
    ensures
        s.no_duplicates(),
{
    assert forall|i: int, j: int| 0 <= i < s.len() && 0 <= j < s.len() && i != j implies s[i]
        != s[j] by {
        text::text_lt_irreflexive(s[i]);
        if i < j {
            assert(text::text_lt(s[i], s[j]));
        } else {
            assert(text::text_lt(s[j], s[i]));
        }
    }
}

/// Two strictly ascending sequences of the same texts are equal.
pub proof fn ascending_is_unique(a: Seq<Seq<char>>, b: Seq<Seq<char>>)
    requires
        ascending(a),
        ascending(b),
        a.to_set() == b.to_set(),
    ensures
        a == b,
    decreases a.len(),
{
    if a.len() == 0 {
        if b.len() > 0 {
            assert(b.to_set().contains(b[0]));
            assert(a.to_set().contains(b[0]));
        }
        assert(a =~= b);
    } else if b.len() == 0 {
        assert(a.to_set().contains(a[0]));
        assert(b.to_set().contains(a[0]));
    } else {
        assert(a.last() == b.last()) by {
            assert(a.to_set().contains(a.last()));
            assert(b.to_set().contains(b.last()));
            assert(b.to_set().contains(a.last()));
            assert(a.to_set().contains(b.last()));
            let i = choose|i: int| 0 <= i < b.len() && b[i] == a.last();
            let j = choose|j: int| 0 <= j < a.len() && a[j] == b.last();
            if i < b.len() - 1 && j < a.len() - 1 {
                assert(text::text_lt(b[i], b[b.len() - 1]));
                assert(text::text_lt(a[j], a[a.len() - 1]));
                text::text_lt_transitive(a.last(), b.last(), a.last());
                text::text_lt_irreflexive(a.last());
            }
        }
        let x = a.drop_last();
        let y = b.drop_last();
        ascending_has_no_duplicates(a);
        ascending_has_no_duplicates(b);
        assert forall|t: Seq<char>| x.to_set().contains(t) <==> y.to_set().contains(t) by {
            if x.to_set().contains(t) {
                let i = choose|i: int| 0 <= i < x.len() && x[i] == t;
                assert(a[i] == t);
                assert(a.to_set().contains(t));
                assert(b.to_set().contains(t));
                let j = choose|j: int| 0 <= j < b.len() && b[j] == t;
                assert(j != b.len() - 1);
                assert(y[j] == t);
            }
            if y.to_set().contains(t) {
                let i = choose|i: int| 0 <= i < y.len() && y[i] == t;
                assert(b[i] == t);
                assert(b.to_set().contains(t));
                assert(a.to_set().contains(t));
                let j = choose|j: int| 0 <= j < a.len() && a[j] == t;
                assert(j != a.len() - 1);
                assert(x[j] == t);
            }
        }
        assert(x.to_set() =~= y.to_set());
        ascending_is_unique(x, y);
        assert(a =~= x.push(a.last()));
        assert(b =~= y.push(b.last()));
    }
}

/// The members of a set of texts in ascending order.
pub open spec fn listing(set: Set<Seq<char>>) -> Seq<Seq<char>> {
    choose|s: Seq<Seq<char>>| ascending(s) && #[trigger] s.to_set() == set
}

/// An ascending sequence with one more text in its place.
spec fn inserted(s: Seq<Seq<char>>, x: Seq<char>) -> Seq<Seq<char>>
    decreases s.len(),
{
    if s.len() == 0 || text::text_lt(s.last(), x) {
        s.push(x)
    } else {
        inserted(s.drop_last(), x).push(s.last())
    }
}

proof fn inserted_is_ascending(s: Seq<Seq<char>>, x: Seq<char>)
    requires
        ascending(s),
        !s.contains(x),
    ensures
        ascending(inserted(s, x)),
        inserted(s, x).to_set() == s.to_set().insert(x),
    decreases s.len(),
{
    let t = inserted(s, x);
    if s.len() == 0 || text::text_lt(s.last(), x) {
        assert forall|i: int, j: int| 0 <= i < j < t.len() implies text::text_lt(
            #[trigger] t[i],
            #[trigger] t[j],
        ) by {
            if j == s.len() && i < s.len() - 1 {
                assert(text::text_lt(s[i], s[s.len() - 1]));
                text::text_lt_transitive(s[i], s.last(), x);
            }
        }
        members_of_push(s, x);
    } else {
        let front = s.drop_last();
        let last = s.last();
        assert(s =~= front.push(last));
        assert(s.contains(last));
        text::text_lt_total(last, x);
        assert forall|i: int| 0 <= i < front.len() implies front[i] != x by {
            assert(s[i] == front[i]);
        }
        inserted_is_ascending(front, x);
        let rest = inserted(front, x);
        members_of_push(rest, last);
        members_of_push(front, last);
        assert forall|i: int| 0 <= i < rest.len() implies text::text_lt(#[trigger] rest[i], last) by {
            assert(rest.to_set().contains(rest[i]));
            if rest[i] != x {
                assert(front.to_set().contains(rest[i]));
                let k = choose|k: int| 0 <= k < front.len() && front[k] == rest[i];
                assert(text::text_lt(s[k], s[s.len() - 1]));
            }
        }
        assert(t.to_set() =~= s.to_set().insert(x));
    }
}

proof fn members_of_push(s: Seq<Seq<char>>, x: Seq<char>)
    ensures
        s.push(x).to_set() == s.to_set().insert(x),
{
    let t = s.push(x);
    assert forall|y: Seq<char>| t.to_set().contains(y) == s.to_set().insert(x).contains(y) by {
        if t.contains(y) {
            let k = choose|k: int| 0 <= k < t.len() && t[k] == y;
            if k < s.len() {
                assert(s[k] == y);
            }
        }
        if s.contains(y) {
            let k = choose|k: int| 0 <= k < s.len() && s[k] == y;
            assert(t[k] == y);
        }
        if y == x {
            assert(t[s.len() as int] == y);
        }
    }
    assert(t.to_set() =~= s.to_set().insert(x));
}

/// Some ascending sequence holds the members of a finite set.
proof fn a_listing_exists(set: Set<Seq<char>>) -> (s: Seq<Seq<char>>)
    requires
        set.finite(),
    ensures
        ascending(s),
        s.to_set() == set,
    decreases set.len(),
{
    if set.len() == 0 {
        let s = Seq::<Seq<char>>::empty();
        assert(s.to_set() =~= set);
        s
    } else {
        let x = set.choose();
        let rest = a_listing_exists(set.remove(x));
        assert(!rest.contains(x)) by {
            if rest.contains(x) {
                assert(rest.to_set().contains(x));
            }
        }
        inserted_is_ascending(rest, x);
        assert(set.remove(x).insert(x) =~= set);
        inserted(rest, x)
    }
}

/// The listing of a finite set ascends, and holds its members.
pub proof fn listing_of_finite(set: Set<Seq<char>>)
    requires
        set.finite(),
    ensures
        ascending(listing(set)),
        listing(set).to_set() == set,
{
    let s = a_listing_exists(set);
    assert(ascending(s) && s.to_set() == set);
}

/// An ascending sequence is the listing of its members.
pub proof fn listing_of_ascending(s: Seq<Seq<char>>)
    requires
        ascending(s),
    ensures
        listing(s.to_set()) == s,
{
    let listed = listing(s.to_set());
    assert(s.to_set() == s.to_set());
    assert(ascending(listed) && listed.to_set() == s.to_set());
    ascending_is_unique(listed, s);
}

/// Finds `key` in ascending `items`: its index, or the index where it belongs.
pub fn search(items: &Vec<String>, key: &str) -> (r: Result<usize, usize>)
    requires
        ascending(items.deep_view()),
    ensures
        match r {
            Ok(i) => i < items.len() && items.deep_view()[i as int] == key@,
            Err(i) => {
                &&& i <= items.len()
                &&& forall|j: int| 0 <= j < i ==> text::text_lt(#[trigger] items.deep_view()[j], key@)
                &&& forall|j: int|
                    i <= j < items.len() ==> text::text_lt(key@, #[trigger] items.deep_view()[j])
            },
        },
{
    let ghost s = items.deep_view();
    let mut low: usize = 0;
    let mut high: usize = items.len();
    while low < high
        invariant
            s == items.deep_view(),
            ascending(s),
            low <= high <= items.len(),
            forall|j: int| 0 <= j < low ==> text::text_lt(#[trigger] s[j], key@),
            forall|j: int| high <= j < items.len() ==> text::text_lt(key@, #[trigger] s[j]),
        decreases high - low,
    {
        let mid: usize = low + (high - low) / 2;
        assert(s[mid as int] == items@[mid as int]@);
        if precedes(items[mid].as_str(), key) {
            proof {
                assert forall|j: int| 0 <= j < mid + 1 implies text::text_lt(#[trigger] s[j], key@) by {
                    if j < mid {
                        text::text_lt_transitive(s[j], s[mid as int], key@);
                    }
                }
            }
            low = mid + 1;
        } else if precedes(key, items[mid].as_str()) {
            proof {
                assert forall|j: int| mid <= j < items.len() implies text::text_lt(
                    key@,
                    #[trigger] s[j],
                ) by {
                    if j > mid {
                        text::text_lt_transitive(key@, s[mid as int], s[j]);
                    }
                }
            }
            high = mid;
        } else {
            proof {
                text::text_lt_total(s[mid as int], key@);
            }
            return Ok(mid);
        }
    }
    Err(low)
}

/// The place that `search` gives for a text that is not there keeps the order.
proof fn insert_keeps_ascending(s: Seq<Seq<char>>, at: int, key: Seq<char>)
    requires
        ascending(s),
        0 <= at <= s.len(),
        forall|j: int| 0 <= j < at ==> text::text_lt(#[trigger] s[j], key),
        forall|j: int| at <= j < s.len() ==> text::text_lt(key, #[trigger] s[j]),
    ensures
        ascending(s.insert(at, key)),
        !s.contains(key),
        s.insert(at, key).to_set() == s.to_set().insert(key),
{
    let t = s.insert(at, key);
    assert forall|i: int, j: int| 0 <= i < j < t.len() implies text::text_lt(
        #[trigger] t[i],
        #[trigger] t[j],
    ) by {
        let oi = if i < at { i } else { i - 1 };
        let oj = if j < at { j } else { j - 1 };
        if i != at {
            assert(t[i] == s[oi]);
        }
        if j != at {
            assert(t[j] == s[oj]);
        }
    }
    if s.contains(key) {
        let i = choose|i: int| 0 <= i < s.len() && s[i] == key;
        text::text_lt_irreflexive(key);
        assert(s[i] == key);
    }
    assert forall|x: Seq<char>| t.to_set().contains(x) <==> s.to_set().insert(key).contains(x) by {
        if t.to_set().contains(x) {
            let i = choose|i: int| 0 <= i < t.len() && t[i] == x;
            if i != at {
                let oi = if i < at { i } else { i - 1 };
                assert(s[oi] == x);
            }
        }
        if s.to_set().contains(x) {
            let i = choose|i: int| 0 <= i < s.len() && s[i] == x;
            let ti = if i < at { i } else { i + 1 };
            assert(t[ti] == x);
        }
        if x == key {
            assert(t[at] == x);
        }
    }
    assert(t.to_set() =~= s.to_set().insert(key));
}

/// A set of texts.
pub struct TextSet {
    /// The members in strictly ascending order.
    pub items: Vec<String>,
}

impl View for TextSet {
    type V = Set<Seq<char>>;

    open spec fn view(&self) -> Set<Seq<char>> {
        self.items.deep_view().to_set()
    }
}

impl TextSet {
    /// The members come in strictly ascending order.
    pub open spec fn wf(&self) -> bool {
        ascending(self.items.deep_view())
    }

    /// The empty set.
    pub fn new() -> (out: TextSet)
        ensures
            out.wf(),
            out@ == Set::<Seq<char>>::empty(),
    {
        let out = TextSet { items: Vec::new() };
        assert(out@ =~= Set::<Seq<char>>::empty());
        out
    }

    /// Whether `key` is a member.
    pub fn contains(&self, key: &str) -> (r: bool)
        requires
            self.wf(),
        ensures
            r == self@.contains(key@),
    {
        let ghost s = self.items.deep_view();
        match search(&self.items, key) {
            Ok(i) => {
                assert(s[i as int] == key@);
                true
            },
            Err(i) => {
                proof {
                    insert_keeps_ascending(s, i as int, key@);
                }
                false
            },
        }
    }

    /// Adds `key`; whether it was not a member yet.
    pub fn insert(&mut self, key: &str) -> (added: bool)
        requires
            old(self).wf(),
        ensures
            final(self).wf(),
            final(self)@ == old(self)@.insert(key@),
            added == !old(self)@.contains(key@),
    {
        let ghost s = self.items.deep_view();
        match search(&self.items, key) {
            Ok(i) => {
                assert(s[i as int] == key@);
                assert(self@.insert(key@) =~= self@);
                false
            },
            Err(i) => {
                proof {
                    insert_keeps_ascending(s, i as int, key@);
                }
                self.items.insert(i, key.to_owned());
                assert(self.items.deep_view() =~= s.insert(i as int, key@));
                true
            },
        }
    }

    /// How many members there are.
    pub fn len(&self) -> (n: usize)
        requires
            self.wf(),
        ensures
            n == self@.len(),
            self@.finite(),
    {
        proof {
            ascending_has_no_duplicates(self.items.deep_view());
            self.items.deep_view().unique_seq_to_set();
        }
        self.items.len()
    }
}

/// A map from texts.
#[derive(Debug)]
pub struct TextMap<V> {
    /// The keys in strictly ascending order.
    pub keys: Vec<String>,
    /// The value of each key, at the index of the key.
    pub values: Vec<V>,
}

impl<V> View for TextMap<V> {
    type V = Map<Seq<char>, V>;

    open spec fn view(&self) -> Map<Seq<char>, V> {
        Map::new(
            |key: Seq<char>| self.keys.deep_view().contains(key),
            |key: Seq<char>| self.values@[self.keys.deep_view().index_of(key)],
        )
    }
}

impl<V: DeepView> DeepView for TextMap<V> {
    type V = Map<Seq<char>, V::V>;

    open spec fn deep_view(&self) -> Map<Seq<char>, V::V> {
        Map::new(|key: Seq<char>| self@.dom().contains(key), |key: Seq<char>| self@[key].deep_view())
    }
}

impl<V> TextMap<V> {
    /// The keys come in strictly ascending order, each with its value.
    pub open spec fn wf(&self) -> bool {
        &&& ascending(self.keys.deep_view())
        &&& self.keys.len() == self.values.len()
    }

    /// The keys are those of the map.
    pub proof fn keys_are_dom(&self)
        ensures
            self.keys.deep_view().to_set() == self@.dom(),
    {
        assert(self.keys.deep_view().to_set() =~= self@.dom());
    }

    /// What the map holds at the index of a key.
    pub proof fn at_index(&self, i: int)
        requires
            self.wf(),
            0 <= i < self.keys.len(),
        ensures
            self@.dom().contains(self.keys.deep_view()[i]),
            self@[self.keys.deep_view()[i]] == self.values@[i],
    {
        let s = self.keys.deep_view();
        ascending_has_no_duplicates(s);
        assert(s[i] == s[i]);
        assert(s.contains(s[i]));
        let k = s.index_of(s[i]);
        assert(s[k] == s[i]);
    }

    /// Where a key of the map stands.
    pub proof fn index_of_key(&self, key: Seq<char>) -> (i: int)
        requires
            self.wf(),
            self@.dom().contains(key),
        ensures
            0 <= i < self.keys.len(),
            self.keys.deep_view()[i] == key,
            self@[key] == self.values@[i],
    {
        let i = choose|i: int| 0 <= i < self.keys.deep_view().len() && self.keys.deep_view()[i] == key;
        self.at_index(i);
        i
    }

    /// The empty map.
    pub fn new() -> (out: TextMap<V>)
        ensures
            out.wf(),
            out@ == Map::<Seq<char>, V>::empty(),
    {
        let out = TextMap { keys: Vec::new(), values: Vec::new() };
        assert(out@ =~= Map::<Seq<char>, V>::empty());
        out
    }

    /// The index of `key`.
    pub fn position(&self, key: &str) -> (r: Option<usize>)
        requires
            self.wf(),
        ensures
            r is Some <==> self@.dom().contains(key@),
            r matches Some(i) ==> {
                &&& i < self.keys.len()
                &&& self.keys.deep_view()[i as int] == key@
                &&& self@[key@] == self.values@[i as int]
            },
    {
        let ghost s = self.keys.deep_view();
        match search(&self.keys, key) {
            Ok(i) => {
                proof {
                    self.at_index(i as int);
                }
                Some(i)
            },
            Err(i) => {
                proof {
                    insert_keeps_ascending(s, i as int, key@);
                }
                None
            },
        }
    }

    /// The value of `key`.
    pub fn get(&self, key: &str) -> (r: Option<&V>)
        requires
            self.wf(),
        ensures
            r == (if self@.dom().contains(key@) {
                Some(&self@[key@])
            } else {
                None
            }),
    {
        match self.position(key) {
            Some(i) => Some(&self.values[i]),
            None => None,
        }
    }

    /// Puts `value` in place of the value at index `i`, which is handed back.
    pub fn replace_at(&mut self, i: usize, value: V) -> (before: V)
        requires
            old(self).wf(),
            i < old(self).keys.len(),
        ensures
            final(self).wf(),
            final(self).keys == old(self).keys,
            before == old(self)@[old(self).keys.deep_view()[i as int]],
            final(self)@ == old(self)@.insert(old(self).keys.deep_view()[i as int], value),
    {
        let ghost earlier = *self;
        let ghost key = self.keys.deep_view()[i as int];
        let ghost new_value = value;
        let mut other = value;
        std::mem::swap(&mut self.values[i], &mut other);
        proof {
            earlier.at_index(i as int);
            ascending_has_no_duplicates(self.keys.deep_view());
            assert(self.values@ =~= earlier.values@.update(i as int, new_value));
            assert forall|k: Seq<char>| #[trigger]
                self@.dom().contains(k) implies self@[k] == earlier@.insert(key, new_value)[k] by {
                let j = self.index_of_key(k);
                earlier.at_index(j);
                self.at_index(j);
                if k == key {
                    assert(j == i);
                }
            }
            assert(self@ =~= earlier@.insert(key, new_value));
        }
        other
    }

    /// Sets the value of `key`.
    pub fn insert(&mut self, key: &str, value: V)
        requires
            old(self).wf(),
        ensures
            final(self).wf(),
            final(self)@ == old(self)@.insert(key@, value),
    {
        let ghost s = self.keys.deep_view();
        let ghost before = *self;
        match search(&self.keys, key) {
            Ok(i) => {
                self.values[i] = value;
                proof {
                    ascending_has_no_duplicates(s);
                    assert(self.keys.deep_view() == s);
                    assert forall|k: Seq<char>| #[trigger]
                        self@.dom().contains(k) implies self@[k] == before@.insert(key@, value)[k] by {
                        let j = self.index_of_key(k);
                        before.at_index(j);
                        self.at_index(j);
                        if k == key@ {
                            assert(j == i);
                        }
                    }
                    before.at_index(i as int);
                    assert(self@ =~= before@.insert(key@, value));
                }
            },
            Err(i) => {
                proof {
                    insert_keeps_ascending(s, i as int, key@);
                }
                self.keys.insert(i, key.to_owned());
                self.values.insert(i, value);
                proof {
                    let t = self.keys.deep_view();
                    assert(t =~= s.insert(i as int, key@));
                    assert forall|k: Seq<char>| #[trigger]
                        self@.dom().contains(k) <==> before@.insert(key@, value).dom().contains(k) by {
                        assert(t.to_set().contains(k) <==> t.contains(k));
                        assert(s.to_set().contains(k) <==> s.contains(k));
                    }
                    assert forall|k: Seq<char>| #[trigger]
                        self@.dom().contains(k) implies self@[k] == before@.insert(key@, value)[k] by {
                        let j = self.index_of_key(k);
                        if j != i {
                            let oj = if j < i { j } else { j - 1 };
                            assert(s[oj] == k);
                            before.at_index(oj);
                        }
                    }
                    assert(self@ =~= before@.insert(key@, value));
                }
            },
        }
    }
}

/// A set of texts for each of some keys.
pub struct TextRelation {
    pub sets: TextMap<TextSet>,
}

impl TextRelation {
    /// Keys and members come in strictly ascending order.
    pub open spec fn wf(&self) -> bool {
        &&& self.sets.wf()
        &&& forall|key: Seq<char>| #[trigger]
            self.sets@.dom().contains(key) ==> self.sets@[key].wf()
    }

    /// The keys.
    pub open spec fn keys(&self) -> Set<Seq<char>> {
        self.sets@.dom()
    }

    /// The members that belong to a key; none where the key is missing.
    pub open spec fn members(&self, key: Seq<char>) -> Set<Seq<char>> {
        if self.sets@.dom().contains(key) {
            self.sets@[key]@
        } else {
            Set::empty()
        }
    }

    /// The empty relation.
    pub fn new() -> (out: TextRelation)
        ensures
            out.wf(),
            out.keys() == Set::<Seq<char>>::empty(),
            forall|key: Seq<char>| #[trigger] out.members(key) == Set::<Seq<char>>::empty(),
    {
        let out = TextRelation { sets: TextMap::new() };
        assert(out.keys() =~= Set::<Seq<char>>::empty());
        out
    }

    /// Adds a key, without members if it is new.
    pub fn add_key(&mut self, key: &str)
        requires
            old(self).wf(),
        ensures
            final(self).wf(),
            final(self).keys() == old(self).keys().insert(key@),
            forall|k: Seq<char>| #[trigger] final(self).members(k) == old(self).members(k),
    {
        if self.sets.position(key).is_none() {
            self.sets.insert(key, TextSet::new());
        }
        assert(self.keys() =~= old(self).keys().insert(key@));
    }

    /// Adds a member to a key.
    pub fn add(&mut self, key: &str, member: &str)
        requires
            old(self).wf(),
        ensures
            final(self).wf(),
            final(self).keys() == old(self).keys().insert(key@),
            final(self).members(key@) == old(self).members(key@).insert(member@),
            forall|k: Seq<char>|
                k != key@ ==> #[trigger] final(self).members(k) == old(self).members(k),
    {
        let ghost before = self.sets@;
        match self.sets.position(key) {
            Some(i) => {
                let mut set = self.sets.replace_at(i, TextSet::new());
                set.insert(member);
                let ghost grown = set;
                self.sets.replace_at(i, set);
                assert(self.sets@ =~= before.insert(key@, grown));
            },
            None => {
                let mut set = TextSet::new();
                set.insert(member);
                self.sets.insert(key, set);
            },
        }
        assert(self.keys() =~= before.dom().insert(key@));
    }

    /// How many members belong to a key.
    pub fn count(&self, key: &str) -> (n: usize)
        requires
            self.wf(),
        ensures
            n == self.members(key@).len(),
            self.members(key@).finite(),
    {
        match self.sets.get(key) {
            Some(set) => set.len(),
            None => 0,
        }
    }
}

} // verus!
