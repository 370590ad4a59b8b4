//! A map from strings to values that keeps its keys in order.
use crate::text::{chars_of, same};
use vstd::prelude::*;

verus! {

/// Lexicographic order of texts by character.
pub open spec fn text_less(a: Seq<char>, b: Seq<char>) -> bool
    decreases a.len(),
{
    if b.len() == 0 {
        false
    } else if a.len() == 0 {
        true
    } else if a[0] == b[0] {
        text_less(a.drop_first(), b.drop_first())
    } else {
        a[0] < b[0]
    }
}

/// Whether each text stands strictly before all that follow it.
pub open spec fn sorted(s: Seq<Seq<char>>) -> bool {
    forall|i: int, j: int| 0 <= i < j < s.len() ==> text_less(#[trigger] s[i], #[trigger] s[j])
}

/// The members of `set`, each once and in order.
pub open spec fn lists_in_order(r: Seq<Seq<char>>, set: Set<Seq<char>>) -> bool {
    sorted(r) && r.to_set() == set
}

/// No text stands before itself.
pub proof fn lemma_less_irreflexive(a: Seq<char>)
    ensures
        !text_less(a, a),
    decreases a.len(),
{
    if a.len() > 0 {
        lemma_less_irreflexive(a.drop_first());
    }
}

/// The order is transitive.
pub proof fn lemma_less_transitive(a: Seq<char>, b: Seq<char>, c: Seq<char>)
    requires
        text_less(a, b),
        text_less(b, c),
    ensures
        text_less(a, c),
    decreases a.len(),
{
    if a.len() > 0 && a[0] == b[0] && b[0] == c[0] {
        lemma_less_transitive(a.drop_first(), b.drop_first(), c.drop_first());
    }
}

/// Of two different texts one stands before the other.
pub proof fn lemma_less_total(a: Seq<char>, b: Seq<char>)
    ensures
        a == b || text_less(a, b) || text_less(b, a),
    decreases a.len(),
{
    if a.len() > 0 && b.len() > 0 && a[0] == b[0] {
        lemma_less_total(a.drop_first(), b.drop_first());
        if a.drop_first() == b.drop_first() {
            assert(a =~= seq![a[0]] + a.drop_first());
            assert(b =~= seq![b[0]] + b.drop_first());
        }
    } else if a.len() == 0 && b.len() == 0 {
        assert(a =~= b);
    }
}

/// A sorted sequence of texts holds none twice.
pub proof fn lemma_sorted_distinct(s: Seq<Seq<char>>)
    requires
        sorted(s),
    ensures
        s.no_duplicates(),
{
    assert forall|i: int, j: int| 0 <= i < s.len() && 0 <= j < s.len() && i != j implies s[i]
        != s[j] by {
        lemma_less_irreflexive(s[i]);
        if i < j {
            assert(text_less(s[i], s[j]));
        } else {
            assert(text_less(s[j], s[i]));
        }
    }
}

/// Two listings in order of the same members are the same.
pub proof fn lemma_listing_unique(r: Seq<Seq<char>>, t: Seq<Seq<char>>, set: Set<Seq<char>>)
    requires
        lists_in_order(r, set),
        lists_in_order(t, set),
    ensures
        r == t,
    decreases r.len(),
{
    lemma_sorted_distinct(r);
    lemma_sorted_distinct(t);
    r.unique_seq_to_set();
    t.unique_seq_to_set();
    if r.len() > 0 {
        let a = r.last();
        let b = t.last();
        assert(r.to_set().contains(a));
        assert(t.to_set().contains(b));
        assert(t.contains(a));
        assert(r.contains(b));
        let i = t.index_of(a);
        let j = r.index_of(b);
        if a != b {
            assert(text_less(t[i], t[t.len() - 1]));
            assert(text_less(r[j], r[r.len() - 1]));
            lemma_less_transitive(a, b, a);
            lemma_less_irreflexive(a);
        }
        let r0 = r.drop_last();
        let t0 = t.drop_last();
        assert(r0.to_set() =~= set.remove(a)) by {
            assert forall|x: Seq<char>| r0.to_set().contains(x) == set.remove(a).contains(x) by {
                if set.remove(a).contains(x) {
                    assert(r.contains(x));
                    let k = r.index_of(x);
                    assert(r0[k] == x);
                }
                if r0.contains(x) {
                    let k = r0.index_of(x);
                    assert(r[k] == x);
                    assert(r.to_set().contains(x));
                }
            }
        }
        assert(t0.to_set() =~= set.remove(a)) by {
            assert forall|x: Seq<char>| t0.to_set().contains(x) == set.remove(a).contains(x) by {
                if set.remove(a).contains(x) {
                    assert(t.contains(x));
                    let k = t.index_of(x);
                    assert(t0[k] == x);
                }
                if t0.contains(x) {
                    let k = t0.index_of(x);
                    assert(t[k] == x);
                    assert(t.to_set().contains(x));
                }
            }
        }
        lemma_listing_unique(r0, t0, set.remove(a));
        assert(r =~= r0.push(a));
        assert(t =~= t0.push(a));
    } else {
        assert(r =~= t);
    }
}

/// What is kept of a sorted sequence lists, in order, those of its members that
/// are wanted.
pub proof fn lemma_filter_lists(keys: Seq<Seq<char>>, want: spec_fn(Seq<char>) -> bool)
    requires
        sorted(keys),
    ensures
        lists_in_order(
            keys.filter(want),
            Set::new(|k: Seq<char>| keys.contains(k) && want(k)),
        ),
    decreases keys.len(),
{
    reveal(Seq::filter);
    let set = Set::new(|k: Seq<char>| keys.contains(k) && want(k));
    if keys.len() == 0 {
        assert(keys.filter(want).to_set() =~= set);
    } else {
        let head = keys.drop_last();
        let last = keys.last();
        lemma_filter_lists(head, want);
        let part = head.filter(want);
        let whole = keys.filter(want);
        let head_set = Set::new(|k: Seq<char>| head.contains(k) && want(k));
        if want(last) {
            assert(whole == part.push(last));
            assert forall|a: int, b: int| 0 <= a < b < whole.len() implies text_less(
                #[trigger] whole[a],
                #[trigger] whole[b],
            ) by {
                if b == part.len() {
                    assert(part.to_set().contains(part[a]));
                    assert(head_set.contains(part[a]));
                    let i = head.index_of(part[a]);
                    assert(keys[i] == part[a]);
                    assert(text_less(keys[i], keys[keys.len() - 1]));
                } else {
                    assert(text_less(part[a], part[b]));
                }
            }
        }
        assert forall|k: Seq<char>| whole.to_set().contains(k) == set.contains(k) by {
            if whole.contains(k) {
                let i = whole.index_of(k);
                if i < part.len() {
                    assert(part[i] == k);
                    assert(part.to_set().contains(k));
                    assert(head_set.contains(k));
                    let j = head.index_of(k);
                    assert(keys[j] == k);
                } else {
                    assert(keys[keys.len() - 1] == k);
                }
            }
            if set.contains(k) {
                let j = keys.index_of(k);
                if j < head.len() {
                    assert(head[j] == k);
                    assert(head_set.contains(k));
                    assert(part.to_set().contains(k));
                    let i = part.index_of(k);
                    assert(whole[i] == k);
                } else {
                    assert(whole[whole.len() - 1] == k);
                }
            }
        }
        assert(whole.to_set() =~= set);
    }
}

/// Whether `a` stands before `b`.
pub fn less(a: &str, b: &str) -> (r: bool)
    ensures
        r == text_less(a@, b@),
{
    let x = chars_of(a);
    let y = chars_of(b);
    let mut i: usize = 0;
    proof {
        assert(a@.skip(0) =~= a@);
        assert(b@.skip(0) =~= b@);
    }
    while i < x.len() && i < y.len() && x[i] == y[i]
        invariant
            i <= x@.len(),
            i <= y@.len(),
            x@ == a@,
            y@ == b@,
            text_less(a@, b@) == text_less(a@.skip(i as int), b@.skip(i as int)),
        decreases x@.len() - i,
    {
        proof {
            assert(a@.skip(i as int).drop_first() =~= a@.skip(i + 1));
            assert(b@.skip(i as int).drop_first() =~= b@.skip(i + 1));
        }
        i = i + 1;
    }
    if i >= y.len() {
        false
    } else if i >= x.len() {
        true
    } else {
        x[i] < y[i]
    }
}

/// A map from strings to values, listed by key in ascending order.
#[verifier::reject_recursive_types(V)]
#[derive(Debug, PartialEq, Eq)]
pub struct OrderedMap<V> {
    entries: Vec<(String, V)>,
}

impl<V> OrderedMap<V> {
    /// The keys in the order in which they are stored.
    pub closed spec fn keys(&self) -> Seq<Seq<char>> {
        self.entries@.map_values(|e: (String, V)| e.0@)
    }

    /// The values in the order of their keys.
    pub closed spec fn values(&self) -> Seq<V> {
        self.entries@.map_values(|e: (String, V)| e.1)
    }

    /// The keys are in ascending order, so each occurs once.
    pub open spec fn wf(&self) -> bool {
        sorted(self.keys())
    }

    /// What each key stands for.
    pub open spec fn view(&self) -> Map<Seq<char>, V> {
        Map::new(
            |k: Seq<char>| self.keys().contains(k),
            |k: Seq<char>| self.values()[self.keys().index_of(k)],
        )
    }

    /// The keys list the map's domain in order, and the values follow them.
    pub proof fn lemma_listing(&self)
        requires
            self.wf(),
        ensures
            lists_in_order(self.keys(), self@.dom()),
            self@.dom().finite(),
            self.keys().len() == self@.dom().len(),
            self.values().len() == self.keys().len(),
            self.keys().no_duplicates(),
            forall|i: int|
                0 <= i < self.keys().len() ==> self@.contains_key(#[trigger] self.keys()[i])
                    && self@[self.keys()[i]] == self.values()[i],
    {
        lemma_sorted_distinct(self.keys());
        assert(self.keys().to_set() =~= self@.dom());
        vstd::seq_lib::seq_to_set_is_finite(self.keys());
        self.keys().unique_seq_to_set();
        assert forall|i: int| 0 <= i < self.keys().len() implies self@.contains_key(
            #[trigger] self.keys()[i],
        ) && self@[self.keys()[i]] == self.values()[i] by {
            assert(self.keys().contains(self.keys()[i]));
            let j = self.keys().index_of(self.keys()[i]);
            assert(self.keys()[j] == self.keys()[i]);
        }
    }

    /// An empty map.
    pub fn new() -> (r: Self)
        ensures
            r.wf(),
            r@ == Map::<Seq<char>, V>::empty(),
    {
        let r = OrderedMap { entries: Vec::new() };
        assert(r@ =~= Map::<Seq<char>, V>::empty());
        r
    }

    /// How many keys the map holds.
    pub fn len(&self) -> (n: usize)
        ensures
            n == self.keys().len(),
            n == self.values().len(),
            self.wf() ==> n == self@.dom().len(),
    {
        proof {
            if self.wf() {
                self.lemma_listing();
            }
        }
        self.entries.len()
    }

    /// The key at a place in the order.
    pub fn key_at(&self, i: usize) -> (k: &String)
        requires
            i < self.keys().len(),
        ensures
            k@ == self.keys()[i as int],
    {
        &self.entries[i].0
    }

    /// The value at a place in the order of the keys.
    pub fn value_at(&self, i: usize) -> (v: &V)
        requires
            i < self.keys().len(),
        ensures
            *v == self.values()[i as int],
    {
        &self.entries[i].1
    }

    /// The place at which `key` stands, or at which it would be put.
    fn position(&self, key: &str) -> (i: usize)
        requires
            self.wf(),
        ensures
            i <= self.keys().len(),
            forall|k: int| 0 <= k < i ==> text_less(#[trigger] self.keys()[k], key@),
            forall|k: int|
                i <= k < self.keys().len() ==> #[trigger] self.keys()[k] == key@ || text_less(
                    key@,
                    self.keys()[k],
                ),
            self.keys().contains(key@) <==> (i < self.keys().len() && self.keys()[i as int] == key@),
    {
        let mut i: usize = 0;
        let n: usize = self.entries.len();
        while i < n && less(self.entries[i].0.as_str(), key)
            invariant
                i <= n == self.keys().len(),
                n == self.entries@.len(),
                forall|k: int| 0 <= k < i ==> text_less(#[trigger] self.keys()[k], key@),
            decreases n - i,
        {
            assert(self.keys()[i as int] == self.entries@[i as int].0@);
            i = i + 1;
        }
        proof {
            if i < n {
                assert(self.keys()[i as int] == self.entries@[i as int].0@);
                lemma_less_total(self.keys()[i as int], key@);
                assert forall|k: int| i <= k < self.keys().len() implies #[trigger] self.keys()[k]
                    == key@ || text_less(key@, self.keys()[k]) by {
                    if k > i {
                        assert(text_less(self.keys()[i as int], self.keys()[k]));
                        if self.keys()[i as int] != key@ {
                            lemma_less_transitive(key@, self.keys()[i as int], self.keys()[k]);
                        }
                    }
                }
            }
            if self.keys().contains(key@) {
                let j = self.keys().index_of(key@);
                lemma_less_irreflexive(key@);
                assert(j >= i);
                if j > i {
                    assert(text_less(self.keys()[i as int], self.keys()[j]));
                    if self.keys()[i as int] != key@ {
                        lemma_less_transitive(key@, self.keys()[i as int], key@);
                    }
                }
            }
        }
        i
    }

    /// Whether `key` is in the map.
    pub fn contains(&self, key: &str) -> (r: bool)
        requires
            self.wf(),
        ensures
            r == self@.contains_key(key@),
    {
        let i: usize = self.position(key);
        proof {
            if i < self.entries@.len() {
                assert(self.keys()[i as int] == self.entries@[i as int].0@);
            }
        }
        i < self.entries.len() && same(self.entries[i].0.as_str(), key)
    }

    /// The value of `key`, where it has one.
    pub fn get(&self, key: &str) -> (r: Option<&V>)
        requires
            self.wf(),
        ensures
            match r {
                Some(v) => self@.contains_key(key@) && *v == self@[key@],
                None => !self@.contains_key(key@),
            },
    {
        let i: usize = self.position(key);
        proof {
            self.lemma_listing();
            if i < self.entries@.len() {
                assert(self.keys()[i as int] == self.entries@[i as int].0@);
                assert(self.values()[i as int] == self.entries@[i as int].1);
            }
        }
        if i < self.entries.len() && same(self.entries[i].0.as_str(), key) {
            Some(&self.entries[i].1)
        } else {
            None
        }
    }

    /// Takes the entry of `key` out of the map.
    pub fn remove(&mut self, key: &str) -> (r: Option<V>)
        requires
            old(self).wf(),
        ensures
            final(self).wf(),
            final(self)@ == old(self)@.remove(key@),
            match r {
                Some(v) => old(self)@.contains_key(key@) && v == old(self)@[key@],
                None => !old(self)@.contains_key(key@),
            },
    {
        let i: usize = self.position(key);
        proof {
            self.lemma_listing();
            if i < self.entries@.len() {
                assert(self.keys()[i as int] == self.entries@[i as int].0@);
                assert(self.values()[i as int] == self.entries@[i as int].1);
            }
        }
        let ghost before = *self;
        if i < self.entries.len() && same(self.entries[i].0.as_str(), key) {
            let e = self.entries.remove(i);
            proof {
                let ks = self.keys();
                assert(ks =~= before.keys().remove(i as int));
                assert(self.values() =~= before.values().remove(i as int));
                assert(sorted(ks)) by {
                    assert forall|a: int, b: int| 0 <= a < b < ks.len() implies text_less(
                        #[trigger] ks[a],
                        #[trigger] ks[b],
                    ) by {
                        let a0 = if a < i { a } else { a + 1 };
                        let b0 = if b < i { b } else { b + 1 };
                        assert(ks[a] == before.keys()[a0]);
                        assert(ks[b] == before.keys()[b0]);
                    }
                }
                self.lemma_listing();
                assert forall|k: Seq<char>|
                    self@.contains_key(k) == before@.remove(key@).contains_key(k) by {
                    if ks.contains(k) {
                        let a = ks.index_of(k);
                        let a0 = if a < i { a } else { a + 1 };
                        assert(ks[a] == before.keys()[a0]);
                        assert(before.keys()[a0] != before.keys()[i as int]);
                    }
                    if before@.remove(key@).contains_key(k) {
                        let b = before.keys().index_of(k);
                        let b0 = if b < i { b } else { b - 1 };
                        assert(ks[b0] == before.keys()[b]);
                    }
                }
                assert forall|k: Seq<char>| self@.contains_key(k) implies self@[k] == before@[k] by {
                    let a = ks.index_of(k);
                    let a0 = if a < i { a } else { a + 1 };
                    assert(ks[a] == before.keys()[a0]);
                    assert(before@[before.keys()[a0]] == before.values()[a0]);
                }
                assert(self@ =~= before@.remove(key@));
            }
            Some(e.1)
        } else {
            assert(self@ =~= before@.remove(key@));
            None
        }
    }

    /// Gives `key` a value, in place of the one it had.
    pub fn insert(&mut self, key: String, value: V) -> (r: Option<V>)
        requires
            old(self).wf(),
        ensures
            final(self).wf(),
            final(self)@ == old(self)@.insert(key@, value),
            match r {
                Some(v) => old(self)@.contains_key(key@) && v == old(self)@[key@],
                None => !old(self)@.contains_key(key@),
            },
    {
        let removed = self.remove(key.as_str());
        let ghost before = *self;
        let ghost k0 = key@;
        let i: usize = self.position(key.as_str());
        proof {
            self.lemma_listing();
            assert(!before.keys().contains(k0));
        }
        self.entries.insert(i, (key, value));
        proof {
            let ks = self.keys();
            assert(ks =~= before.keys().insert(i as int, k0));
            assert(self.values() =~= before.values().insert(i as int, value));
            assert(sorted(ks)) by {
                assert forall|a: int, b: int| 0 <= a < b < ks.len() implies text_less(
                    #[trigger] ks[a],
                    #[trigger] ks[b],
                ) by {
                    if a == i {
                        assert(ks[b] == before.keys()[b - 1]);
                    } else if b == i {
                        assert(ks[a] == before.keys()[a]);
                    } else {
                        let a0 = if a < i { a } else { a - 1 };
                        let b0 = if b < i { b } else { b - 1 };
                        assert(ks[a] == before.keys()[a0]);
                        assert(ks[b] == before.keys()[b0]);
                    }
                }
            }
            self.lemma_listing();
            assert forall|k: Seq<char>| self@.contains_key(k) == before@.insert(k0, value).contains_key(k) by {
                if ks.contains(k) {
                    let a = ks.index_of(k);
                    if a != i {
                        let a0 = if a < i { a } else { a - 1 };
                        assert(ks[a] == before.keys()[a0]);
                    }
                }
                if before.keys().contains(k) {
                    let b = before.keys().index_of(k);
                    let b0 = if b < i { b } else { b + 1 };
                    assert(ks[b0] == before.keys()[b]);
                }
                if k == k0 {
                    assert(ks[i as int] == k0);
                }
            }
            assert forall|k: Seq<char>| self@.contains_key(k) implies self@[k] == before@.insert(k0, value)[k] by {
                let a = ks.index_of(k);
                if a != i {
                    let a0 = if a < i { a } else { a - 1 };
                    assert(ks[a] == before.keys()[a0]);
                    assert(before@[before.keys()[a0]] == before.values()[a0]);
                    assert(self.values()[a] == before.values()[a0]);
                }
            }
            assert(self@ =~= before@.insert(k0, value));
            assert(self@ =~= old(self)@.insert(k0, value));
        }
        removed
    }
}

/// The texts of a map of strings.
pub open spec fn map_texts(m: Map<Seq<char>, String>) -> Map<Seq<char>, Seq<char>> {
    Map::new(|k: Seq<char>| m.contains_key(k), |k: Seq<char>| m[k]@)
}

impl OrderedMap<String> {
    /// A copy of a map of strings.
    pub fn copied(&self) -> (r: Self)
        requires
            self.wf(),
        ensures
            r.wf(),
            r@ == self@,
            r.keys() == self.keys(),
    {
        let mut entries: Vec<(String, String)> = Vec::new();
        let mut i: usize = 0;
        while i < self.entries.len()
            invariant
                i <= self.entries@.len(),
                entries@ == self.entries@.take(i as int),
            decreases self.entries@.len() - i,
        {
            let e = &self.entries[i];
            entries.push((e.0.clone(), e.1.clone()));
            i = i + 1;
            assert(self.entries@.take(i as int) =~= self.entries@.take(i - 1).push(
                self.entries@[i - 1],
            ));
        }
        let r = OrderedMap { entries };
        proof {
            assert(r.entries@ =~= self.entries@);
            assert(r.keys() =~= self.keys());
            assert(r.values() =~= self.values());
            assert(r@ =~= self@);
        }
        r
    }
}

/// Whether two texts differ first at a place, where the first has the lesser character.
pub open spec fn is_lesser_at(a: Seq<char>, b: Seq<char>, k: int) -> bool {
    &&& 0 <= k < a.len()
    &&& k < b.len()
    &&& forall|i: int| 0 <= i < k ==> a[i] == #[trigger] b[i]
    &&& a[k] < b[k]
}

/// A text stands before another where it is a beginning of it, or has the lesser character
/// where they first differ.
pub proof fn law_texts_are_ordered_by_character(a: Seq<char>, b: Seq<char>)
    ensures
        text_less(a, b) <==> (a.len() < b.len() && b.take(a.len() as int) == a) || exists|k: int|
            #[trigger] is_lesser_at(a, b, k),
    decreases a.len(),
{
    if b.len() > 0 && a.len() > 0 {
        let x = a.drop_first();
        let y = b.drop_first();
        law_texts_are_ordered_by_character(x, y);
        if a[0] == b[0] {
            if x.len() < y.len() && y.take(x.len() as int) == x {
                assert forall|i: int| 0 <= i < a.len() implies b.take(a.len() as int)[i] == a[i] by {
                    if i > 0 {
                        assert(y.take(x.len() as int)[i - 1] == x[i - 1]);
                    }
                }
                assert(b.take(a.len() as int) =~= a);
            }
            if a.len() < b.len() && b.take(a.len() as int) == a {
                assert forall|i: int| 0 <= i < x.len() implies y.take(x.len() as int)[i] == x[i] by {
                    assert(b.take(a.len() as int)[i + 1] == a[i + 1]);
                }
                assert(y.take(x.len() as int) =~= x);
            }
            if exists|k: int| #[trigger] is_lesser_at(x, y, k) {
                let k = choose|k: int| #[trigger] is_lesser_at(x, y, k);
                assert forall|i: int| 0 <= i < k + 1 implies a[i] == #[trigger] b[i] by {
                    if i > 0 {
                        assert(x[i - 1] == y[i - 1]);
                    }
                }
                assert(is_lesser_at(a, b, k + 1));
            }
            if exists|k: int| #[trigger] is_lesser_at(a, b, k) {
                let k = choose|k: int| #[trigger] is_lesser_at(a, b, k);
                assert(k > 0);
                assert forall|i: int| 0 <= i < k - 1 implies x[i] == #[trigger] y[i] by {
                    assert(a[i + 1] == b[i + 1]);
                }
                assert(is_lesser_at(x, y, k - 1));
            }
        } else {
            if a[0] < b[0] {
                assert(is_lesser_at(a, b, 0));
            }
            if a.len() < b.len() && b.take(a.len() as int) == a {
                assert(b.take(a.len() as int)[0] == a[0]);
            }
            if exists|k: int| #[trigger] is_lesser_at(a, b, k) {
                let k = choose|k: int| #[trigger] is_lesser_at(a, b, k);
                if k > 0 {
                    assert(a[0] == b[0]);
                }
            }
        }
    } else if a.len() == 0 {
        assert(b.take(0) =~= a);
    }
}

} // verus!
