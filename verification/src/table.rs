//! A small keyed table with distinct keys, modelled as a map.

use vstd::prelude::*;

verus! {

/// A key that can be compared by what it stands for.
pub trait TableKey: View + Sized {
    /// Whether two keys stand for the same thing.
    fn same(&self, other: &Self) -> (b: bool)
        ensures
            b == (self@ == other@),
    ;
}

impl TableKey for String {
    fn same(&self, other: &Self) -> (b: bool) {
        *self == *other
    }
}

/// Entries in no particular order; no key occurs twice.
pub struct Table<K: TableKey, V> {
    entries: Vec<(K, V)>,
}

/// A value and the time, in nanoseconds, at which it was last stamped.
pub struct Stamped<T> {
    /// The value itself.
    pub value: T,
    /// When it was stamped.
    pub at: u64,
}

/// Nanoseconds from `at` to `now`; none if `now` is the earlier of the two.
pub open spec fn age(now: u64, at: u64) -> int {
    if now >= at {
        now - at
    } else {
        0
    }
}

/// The entries of `m` that are younger than `max_age` at `now`.
pub open spec fn recent<A, T>(m: Map<A, Stamped<T>>, now: u64, max_age: u64) -> Map<A, Stamped<T>> {
    m.restrict(Set::new(|a: A| m.dom().contains(a) && age(now, m[a].at) < max_age))
}

spec fn distinct<K: TableKey, V>(s: Seq<(K, V)>) -> bool {
    forall|i: int, j: int| 0 <= i < j < s.len() ==> (#[trigger] s[i]).0@ != (#[trigger] s[j]).0@
}

spec fn as_map<K: TableKey, V>(s: Seq<(K, V)>) -> Map<K::V, V>
    decreases s.len(),
{
    if s.len() == 0 {
        Map::empty()
    } else {
        as_map(s.drop_last()).insert(s.last().0@, s.last().1)
    }
}

proof fn lemma_as_map<K: TableKey, V>(s: Seq<(K, V)>)
    requires
        distinct(s),
    ensures
        as_map(s).dom().finite(),
        as_map(s).len() == s.len(),
        forall|i: int|
            0 <= i < s.len() ==> as_map(s).dom().contains((#[trigger] s[i]).0@) && as_map(s)[s[i].0@]
                == s[i].1,
        forall|k: K::V| #[trigger]
            as_map(s).dom().contains(k) ==> exists|i: int| 0 <= i < s.len() && (#[trigger] s[i]).0@ == k,
    decreases s.len(),
{
    if s.len() > 0 {
        let init = s.drop_last();
        assert forall|i: int, j: int| 0 <= i < j < init.len() implies (#[trigger] init[i]).0@ != (
        #[trigger] init[j]).0@ by {
            assert(init[i] == s[i] && init[j] == s[j]);
        }
        lemma_as_map(init);
        let n = s.len() - 1;
        assert(!as_map(init).dom().contains(s.last().0@)) by {
            if as_map(init).dom().contains(s.last().0@) {
                let i = choose|i: int| 0 <= i < init.len() && (#[trigger] init[i]).0@ == s.last().0@;
                assert(init[i] == s[i]);
                assert(s[i].0@ != s[n].0@);
            }
        }
        assert forall|i: int| 0 <= i < s.len() implies as_map(s).dom().contains((#[trigger] s[i]).0@)
            && as_map(s)[s[i].0@] == s[i].1 by {
            if i < n {
                assert(init[i] == s[i]);
                assert(s[i].0@ != s[n].0@);
            }
        }
        assert forall|k: K::V| #[trigger] as_map(s).dom().contains(k) implies exists|i: int|
            0 <= i < s.len() && (#[trigger] s[i]).0@ == k by {
            if k == s.last().0@ {
                assert(s[n].0@ == k);
            } else {
                assert(as_map(init).dom().contains(k));
                let i = choose|i: int| 0 <= i < init.len() && (#[trigger] init[i]).0@ == k;
                assert(s[i] == init[i]);
            }
        }
    }
}

/// A sequence of distinct entries spells the map `m` as soon as every entry
/// is in `m` and every key of `m` occurs.
proof fn lemma_spells<K: TableKey, V>(s: Seq<(K, V)>, m: Map<K::V, V>)
    requires
        distinct(s),
        forall|i: int|
            0 <= i < s.len() ==> m.dom().contains((#[trigger] s[i]).0@) && m[s[i].0@] == s[i].1,
        forall|k: K::V| #[trigger]
            m.dom().contains(k) ==> exists|i: int| 0 <= i < s.len() && (#[trigger] s[i]).0@ == k,
    ensures
        as_map(s) == m,
{
    lemma_as_map(s);
    assert forall|k: K::V| as_map(s).dom().contains(k) == m.dom().contains(k) by {
        if as_map(s).dom().contains(k) {
            let i = choose|i: int| 0 <= i < s.len() && (#[trigger] s[i]).0@ == k;
            assert(m.dom().contains(s[i].0@));
        }
        if m.dom().contains(k) {
            let i = choose|i: int| 0 <= i < s.len() && (#[trigger] s[i]).0@ == k;
            assert(as_map(s).dom().contains(s[i].0@));
        }
    }
    assert forall|k: K::V| #[trigger] as_map(s).dom().contains(k) implies as_map(s)[k] == m[k] by {
        let i = choose|i: int| 0 <= i < s.len() && (#[trigger] s[i]).0@ == k;
        assert(m[s[i].0@] == s[i].1);
    }
    assert(as_map(s) =~= m);
}

impl<K: TableKey, V> View for Table<K, V> {
    type V = Map<K::V, V>;

    closed spec fn view(&self) -> Map<K::V, V> {
        as_map(self.entries@)
    }
}

impl<K: TableKey, V> Table<K, V> {
    /// No key occurs twice.
    pub closed spec fn wf(&self) -> bool {
        distinct(self.entries@)
    }

    /// An empty table.
    pub fn new() -> (t: Self)
        ensures
            t.wf(),
            t@ == Map::<K::V, V>::empty(),
    {
        Table { entries: Vec::new() }
    }

    /// How many keys the table holds.
    pub fn len(&self) -> (n: usize)
        requires
            self.wf(),
        ensures
            n == self@.len(),
            self@.dom().finite(),
    {
        proof {
            lemma_as_map(self.entries@);
        }
        self.entries.len()
    }

    fn find(&self, key: &K) -> (r: Option<usize>)
        requires
            self.wf(),
        ensures
            match r {
                Some(i) => i < self.entries@.len() && self.entries@[i as int].0@ == key@
                    && self@.dom().contains(key@) && self@[key@] == self.entries@[i as int].1,
                None => !self@.dom().contains(key@),
            },
    {
        proof {
            lemma_as_map(self.entries@);
        }
        let mut i: usize = 0;
        while i < self.entries.len()
            invariant
                i <= self.entries@.len(),
                forall|k: int| 0 <= k < i ==> (#[trigger] self.entries@[k]).0@ != key@,
                forall|k: int|
                    0 <= k < self.entries@.len() ==> self@.dom().contains(
                        (#[trigger] self.entries@[k]).0@,
                    ) && self@[self.entries@[k].0@] == self.entries@[k].1,
            decreases self.entries.len() - i,
        {
            if self.entries[i].0.same(key) {
                return Some(i);
            }
            i += 1;
        }
        None
    }

    /// Whether `key` is in the table.
    pub fn contains_key(&self, key: &K) -> (b: bool)
        requires
            self.wf(),
        ensures
            b == self@.dom().contains(key@),
    {
        self.find(key).is_some()
    }

    /// The value of `key`, if it has one.
    pub fn get(&self, key: &K) -> (r: Option<&V>)
        requires
            self.wf(),
        ensures
            match r {
                Some(v) => self@.dom().contains(key@) && *v == self@[key@],
                None => !self@.dom().contains(key@),
            },
    {
        match self.find(key) {
            Some(i) => Some(&self.entries[i].1),
            None => None,
        }
    }

    /// Takes `key` out of the table and returns its value, if it had one.
    pub fn remove(&mut self, key: &K) -> (r: Option<V>)
        requires
            old(self).wf(),
        ensures
            final(self).wf(),
            final(self)@ == old(self)@.remove(key@),
            match r {
                Some(v) => old(self)@.dom().contains(key@) && v == old(self)@[key@],
                None => !old(self)@.dom().contains(key@),
            },
    {
        let ghost s = self.entries@;
        let ghost m = self@;
        proof {
            lemma_as_map(s);
        }
        match self.find(key) {
            Some(i) => {
                let (_k, v) = self.entries.swap_remove(i);
                proof {
                    let t = self.entries@;
                    let n = s.len() - 1;
                    assert(t =~= s.update(i as int, s[n]).drop_last());
                    assert forall|a: int, b: int| 0 <= a < b < t.len() implies (#[trigger] t[a]).0@
                        != (#[trigger] t[b]).0@ by {
                        let a0 = if a == i { n } else { a };
                        let b0 = if b == i { n } else { b };
                        assert(t[a] == s[a0] && t[b] == s[b0]);
                        if a0 < b0 {
                            assert(s[a0].0@ != s[b0].0@);
                        } else {
                            assert(s[b0].0@ != s[a0].0@);
                        }
                    }
                    let want = m.remove(key@);
                    assert forall|a: int| 0 <= a < t.len() implies want.dom().contains(
                        (#[trigger] t[a]).0@,
                    ) && want[t[a].0@] == t[a].1 by {
                        let a0 = if a == i { n } else { a };
                        assert(t[a] == s[a0]);
                        assert(m.dom().contains(s[a0].0@));
                        if a0 < i {
                            assert(s[a0].0@ != s[i as int].0@);
                        } else {
                            assert(s[i as int].0@ != s[a0].0@);
                        }
                    }
                    assert forall|k: K::V| #[trigger] want.dom().contains(k) implies exists|a: int|
                        0 <= a < t.len() && (#[trigger] t[a]).0@ == k by {
                        assert(m.dom().contains(k));
                        let a0 = choose|a: int| 0 <= a < s.len() && (#[trigger] s[a]).0@ == k;
                        let a = if a0 == n { i as int } else { a0 };
                        assert(a0 != i);
                        assert(t[a] == s[a0]);
                    }
                    lemma_spells(t, want);
                }
                Some(v)
            },
            None => {
                assert(m.remove(key@) =~= m);
                None
            },
        }
    }

    /// Gives `key` the value `value`; returns the value it had before.
    pub fn insert(&mut self, key: K, value: V) -> (r: Option<V>)
        requires
            old(self).wf(),
        ensures
            final(self).wf(),
            final(self)@ == old(self)@.insert(key@, value),
            match r {
                Some(v) => old(self)@.dom().contains(key@) && v == old(self)@[key@],
                None => !old(self)@.dom().contains(key@),
            },
    {
        let ghost m = self@;
        let before = self.remove(&key);
        let ghost s = self.entries@;
        proof {
            lemma_as_map(s);
        }
        self.entries.push((key, value));
        proof {
            let t = self.entries@;
            assert forall|a: int, b: int| 0 <= a < b < t.len() implies (#[trigger] t[a]).0@ != (
            #[trigger] t[b]).0@ by {
                assert(t[a] == s[a]);
                if b < s.len() {
                    assert(t[b] == s[b]);
                } else {
                    assert(as_map(s).dom().contains(s[a].0@));
                }
            }
            assert(t.drop_last() =~= s);
            assert(as_map(t) =~= m.insert(key@, value));
        }
        before
    }

    /// Empties the table and returns its entries.
    pub fn drain(&mut self) -> (out: Vec<(K, V)>)
        requires
            old(self).wf(),
        ensures
            final(self).wf(),
            final(self)@ == Map::<K::V, V>::empty(),
            out@.len() == old(self)@.len(),
            forall|i: int|
                0 <= i < out@.len() ==> old(self)@.dom().contains((#[trigger] out@[i]).0@)
                    && old(self)@[out@[i].0@] == out@[i].1,
            forall|k: K::V| #[trigger]
                old(self)@.dom().contains(k) ==> exists|i: int|
                    0 <= i < out@.len() && (#[trigger] out@[i]).0@ == k,
    {
        proof {
            lemma_as_map(self.entries@);
        }
        let mut out: Vec<(K, V)> = Vec::new();
        out.append(&mut self.entries);
        assert(out@ =~= old(self).entries@);
        out
    }
}

/// Whether `e` is a young entry of `s` at position `n` or behind it.
spec fn sourced<K: TableKey, T>(
    e: (K, Stamped<T>),
    s: Seq<(K, Stamped<T>)>,
    n: int,
    now: u64,
    max_age: u64,
) -> bool {
    exists|j: int|
        n <= j < s.len() && e == (#[trigger] s[j]) && age(now, s[j].1.at) < max_age
}

/// `kept` holds the young entries of `s` from position `n` on, each once.
spec fn kept_from<K: TableKey, T>(
    kept: Seq<(K, Stamped<T>)>,
    s: Seq<(K, Stamped<T>)>,
    n: int,
    now: u64,
    max_age: u64,
) -> bool {
    &&& distinct(kept)
    &&& kept.len() <= s.len() - n
    &&& forall|a: int| 0 <= a < kept.len() ==> sourced(#[trigger] kept[a], s, n, now, max_age)
    &&& forall|j: int|
        n <= j < s.len() && age(now, s[j].1.at) < max_age ==> kept.contains(#[trigger] s[j])
}

proof fn lemma_kept_step<K: TableKey, T>(
    kept: Seq<(K, Stamped<T>)>,
    s: Seq<(K, Stamped<T>)>,
    n: int,
    now: u64,
    max_age: u64,
)
    requires
        distinct(s),
        0 <= n < s.len(),
        kept_from(kept, s, n + 1, now, max_age),
    ensures
        age(now, s[n].1.at) < max_age ==> kept_from(kept.push(s[n]), s, n, now, max_age),
        age(now, s[n].1.at) >= max_age ==> kept_from(kept, s, n, now, max_age),
{
    assert forall|a: int| 0 <= a < kept.len() implies sourced(#[trigger] kept[a], s, n, now, max_age)
        && kept[a].0@ != s[n].0@ by {
        assert(sourced(kept[a], s, n + 1, now, max_age));
        let j = choose|j: int|
            n + 1 <= j < s.len() && kept[a] == (#[trigger] s[j]) && age(now, s[j].1.at) < max_age;
        assert(s[n].0@ != s[j].0@);
    }
    if age(now, s[n].1.at) < max_age {
        let t = kept.push(s[n]);
        assert forall|a: int, b: int| 0 <= a < b < t.len() implies (#[trigger] t[a]).0@ != (
        #[trigger] t[b]).0@ by {
            assert(t[a] == kept[a]);
            if b < kept.len() {
                assert(t[b] == kept[b]);
            }
        }
        assert forall|a: int| 0 <= a < t.len() implies sourced(#[trigger] t[a], s, n, now, max_age) by {
            if a < kept.len() {
                assert(t[a] == kept[a]);
            } else {
                assert(t[a] == s[n]);
            }
        }
        assert forall|j: int|
            n <= j < s.len() && age(now, s[j].1.at) < max_age implies t.contains(#[trigger] s[j]) by {
            if j == n {
                assert(t[kept.len() as int] == s[j]);
            } else {
                assert(kept.contains(s[j]));
                let a = choose|a: int| 0 <= a < kept.len() && kept[a] == s[j];
                assert(t[a] == s[j]);
            }
        }
    }
}

impl<K: TableKey, T> Table<K, Stamped<T>> {
    /// Drops every entry that is `max_age` old or older at `now`.
    pub fn retain_recent(&mut self, now: u64, max_age: u64)
        requires
            old(self).wf(),
        ensures
            final(self).wf(),
            final(self)@ == recent(old(self)@, now, max_age),
            final(self)@.dom().finite(),
            final(self)@.len() <= old(self)@.len(),
    {
        let ghost s = self.entries@;
        let ghost m = self@;
        proof {
            lemma_as_map(s);
        }
        let mut rest: Vec<(K, Stamped<T>)> = Vec::new();
        rest.append(&mut self.entries);
        assert(rest@ =~= s);
        while rest.len() > 0
            invariant
                distinct(s),
                rest@.len() <= s.len(),
                rest@ == s.take(rest@.len() as int),
                kept_from(self.entries@, s, rest@.len() as int, now, max_age),
            decreases rest@.len(),
        {
            let ghost kept = self.entries@;
            let ghost n = rest@.len() - 1;
            if let Some(entry) = rest.pop() {
                assert(entry == s[n]);
                assert(rest@ =~= s.take(n));
                let elapsed: u64 = if now >= entry.1.at {
                    now - entry.1.at
                } else {
                    0
                };
                proof {
                    lemma_kept_step(kept, s, n, now, max_age);
                }
                if elapsed < max_age {
                    self.entries.push(entry);
                }
            }
        }
        proof {
            let t = self.entries@;
            let want = recent(m, now, max_age);
            assert forall|a: int| 0 <= a < t.len() implies want.dom().contains((#[trigger] t[a]).0@)
                && want[t[a].0@] == t[a].1 by {
                assert(sourced(t[a], s, 0, now, max_age));
                let j = choose|j: int|
                    0 <= j < s.len() && t[a] == (#[trigger] s[j]) && age(now, s[j].1.at) < max_age;
                assert(m.dom().contains(s[j].0@));
            }
            assert forall|k: K::V| #[trigger] want.dom().contains(k) implies exists|a: int|
                0 <= a < t.len() && (#[trigger] t[a]).0@ == k by {
                assert(m.dom().contains(k));
                let j = choose|j: int| 0 <= j < s.len() && (#[trigger] s[j]).0@ == k;
                assert(age(now, s[j].1.at) < max_age);
                assert(t.contains(s[j]));
                let a = choose|a: int| 0 <= a < t.len() && (#[trigger] t[a]) == s[j];
                assert(t[a].0@ == k);
            }
            lemma_spells(t, want);
            lemma_as_map(t);
        }
    }
}

/// What is put under a key is found under it and taken out from under it, and
/// nothing that is put or taken touches another key. A new table is empty.
pub proof fn law_table_gives_back<K: TableKey, V>(
    fresh: Table<K, V>,
    t: &mut Table<K, V>,
    key: K,
    value: V,
    before: Option<V>,
    other: &K,
    there: bool,
    found: Option<&V>,
    taken_from: &mut Table<K, V>,
    taken: Option<V>,
)
    requires
        call_ensures(Table::<K, V>::new, (), fresh),
        call_ensures(Table::<K, V>::insert, (t, key, value), before),
        call_ensures(Table::<K, V>::contains_key, (&*final(t), other), there),
        call_ensures(Table::<K, V>::get, (&*final(t), other), found),
        call_ensures(Table::<K, V>::remove, (taken_from, other), taken),
        old(taken_from)@ == final(t)@,
    ensures
        !fresh@.dom().contains(other@),
        other@ == key@ ==> there && found == Some(&value) && taken == Some(value),
        other@ != key@ ==> (there <==> old(t)@.dom().contains(other@)) && (found is Some <==> there)
            && (taken is Some <==> there) && (there ==> *(found->0) == old(t)@[other@] && taken->0
            == old(t)@[other@]),
        before is Some <==> old(t)@.dom().contains(key@),
        before is Some ==> before->0 == old(t)@[key@],
        !final(taken_from)@.dom().contains(other@),
        forall|k: K::V|
            k != other@ ==> (#[trigger] final(taken_from)@.dom().contains(k) 
                <==> final(t)@.dom().contains(k)),
{
}

/// Emptying a table hands out each of its entries once, and leaves none.
pub proof fn law_table_is_emptied<K: TableKey, V>(
    t: &mut Table<K, V>,
    n: usize,
    counted: &Table<K, V>,
    out: Vec<(K, V)>,
    k: K::V,
)
    requires
        call_ensures(Table::<K, V>::drain, (t,), out),
        call_ensures(Table::<K, V>::len, (counted,), n),
        counted@ == old(t)@,
    ensures
        out@.len() == n,
        !final(t)@.dom().contains(k),
        old(t)@.dom().contains(k) <==> exists|i: int|
            0 <= i < out@.len() && (#[trigger] out@[i]).0@ == k,
        forall|i: int|
            0 <= i < out@.len() ==> (#[trigger] out@[i]).1 == old(t)@[out@[i].0@],
{
}

/// What is younger than the limit stays as it is, and nothing else does.
pub proof fn law_young_entries_stay<K: TableKey, T>(
    t: &mut Table<K, Stamped<T>>,
    now: u64,
    max_age: u64,
    k: K::V,
)
    requires
        call_ensures(Table::<K, Stamped<T>>::retain_recent, (t, now, max_age), ()),
        max_age > 0,
    ensures
        final(t)@.dom().contains(k) <==> old(t)@.dom().contains(k) && now < old(t)@[k].at + max_age,
        final(t)@.dom().contains(k) ==> final(t)@[k] == old(t)@[k],
{
}

} // verus!
