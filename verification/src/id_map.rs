//! A map keyed by numeric ids, held sorted by key.
//!
//! Schema map fields need a key-unique mapping whose iteration follows a
//! canonical key order, so that serializing the same value twice yields the
//! same wire entries.  The map stores its entries as a vector sorted by
//! strictly increasing key; insertion keeps the order and replaces the
//! value of an existing key.

use vstd::prelude::*;

verus! {

/// Entry keys are strictly increasing.
pub open spec fn sorted_keys<T>(s: Seq<(u32, T)>) -> bool {
    forall|i: int, j: int| 0 <= i < j < s.len() ==> (#[trigger] s[i]).0 < (#[trigger] s[j]).0
}

/// Where an entry for `k` lands in `s`: ahead of the first key not below
/// `k`, replacing it when it is `k` itself.
pub open spec fn spec_insert<T>(s: Seq<(u32, T)>, k: u32, v: T) -> Seq<(u32, T)>
    decreases s.len(),
{
    if s.len() == 0 {
        seq![(k, v)]
    } else if s[0].0 < k {
        seq![s[0]] + spec_insert(s.skip(1), k, v)
    } else if s[0].0 == k {
        seq![(k, v)] + s.skip(1)
    } else {
        seq![(k, v)] + s
    }
}

/// Inserting a key above every key of `s` appends the entry.
pub proof fn lemma_spec_insert_append<T>(s: Seq<(u32, T)>, k: u32, v: T)
    requires
        forall|i: int| 0 <= i < s.len() ==> (#[trigger] s[i]).0 < k,
    ensures
        spec_insert(s, k, v) == s.push((k, v)),
    decreases s.len(),
{
    if s.len() == 0 {
        assert(spec_insert(s, k, v) =~= s.push((k, v)));
    } else {
        assert(forall|i: int|
            0 <= i < s.skip(1).len() ==> (#[trigger] s.skip(1)[i]).0 < k);
        lemma_spec_insert_append(s.skip(1), k, v);
        assert(spec_insert(s, k, v) =~= s.push((k, v)));
    }
}

/// Insertion keeps the keys sorted.
pub proof fn lemma_spec_insert_sorted<T>(s: Seq<(u32, T)>, k: u32, v: T)
    requires
        sorted_keys(s),
    ensures
        sorted_keys(spec_insert(s, k, v)),
    decreases s.len(),
{
    if s.len() == 0 {
    } else if s[0].0 < k {
        assert(sorted_keys(s.skip(1)));
        lemma_spec_insert_sorted(s.skip(1), k, v);
        let r = seq![s[0]] + spec_insert(s.skip(1), k, v);
        lemma_spec_insert_bounds(s.skip(1), k, v);
        assert forall|i: int, j: int| 0 <= i < j < r.len() implies (#[trigger] r[i]).0 < (
        #[trigger] r[j]).0 by {
            if i > 0 {
                assert(r[i] == spec_insert(s.skip(1), k, v)[i - 1]);
            }
        }
    } else if s[0].0 == k {
        assert(sorted_keys(seq![(k, v)] + s.skip(1)));
    } else {
        assert(sorted_keys(seq![(k, v)] + s));
    }
}

/// Every key of the inserted sequence is a key of `s` or `k` itself.
pub proof fn lemma_spec_insert_bounds<T>(s: Seq<(u32, T)>, k: u32, v: T)
    ensures
        forall|i: int|
            0 <= i < spec_insert(s, k, v).len() ==> ((#[trigger] spec_insert(s, k, v)[i]).0 == k
                || exists|j: int| 0 <= j < s.len() && (#[trigger] s[j]).0 == spec_insert(
                s,
                k,
                v,
            )[i].0),
    decreases s.len(),
{
    if s.len() == 0 {
    } else if s[0].0 < k {
        lemma_spec_insert_bounds(s.skip(1), k, v);
        let r = seq![s[0]] + spec_insert(s.skip(1), k, v);
        assert forall|i: int|
            0 <= i < r.len() implies ((#[trigger] r[i]).0 == k || exists|j: int|
            0 <= j < s.len() && (#[trigger] s[j]).0 == r[i].0) by {
            if i == 0 {
                assert(s[0].0 == r[0].0);
            } else {
                let inner = spec_insert(s.skip(1), k, v);
                assert(r[i] == inner[i - 1]);
                if inner[i - 1].0 != k {
                    let j = choose|j: int|
                        0 <= j < s.skip(1).len() && (#[trigger] s.skip(1)[j]).0 == inner[i - 1].0;
                    assert(s[j + 1].0 == r[i].0);
                }
            }
        }
    } else {
    }
}

/// A key-sorted map from `u32` ids to values.
#[derive(Debug)]
pub struct OrderedIdMap<V> {
    entries: Vec<(u32, V)>,
}

impl<V: View> View for OrderedIdMap<V> {
    type V = Seq<(u32, V::V)>;

    closed spec fn view(&self) -> Seq<(u32, V::V)> {
        Seq::new(self.entries@.len(), |i: int| (self.entries@[i].0, self.entries@[i].1@))
    }
}

impl<V: View> OrderedIdMap<V> {
    /// The entries are sorted by strictly increasing key; every method
    /// keeps this.
    pub open spec fn wf(&self) -> bool {
        sorted_keys(self@)
    }

    pub fn new() -> (r: OrderedIdMap<V>)
        ensures
            r@ == Seq::<(u32, V::V)>::empty(),
            r.wf(),
    {
        let r = OrderedIdMap { entries: Vec::new() };
        proof {
            assert(r@ =~= Seq::<(u32, V::V)>::empty());
        }
        r
    }

    pub fn len(&self) -> (r: usize)
        ensures
            r == self@.len(),
    {
        self.entries.len()
    }

    /// The entry at a position, in key order.
    pub fn index(&self, i: usize) -> (r: &(u32, V))
        requires
            i < self@.len(),
        ensures
            r.0 == self@[i as int].0,
            r.1@ == self@[i as int].1,
    {
        &self.entries[i]
    }

    /// Looks a key up.
    pub fn get(&self, key: u32) -> (r: Option<&V>)
        ensures
            match r {
                Some(v) => exists|i: int|
                    0 <= i < self@.len() && (#[trigger] self@[i]).0 == key && self@[i].1 == v@,
                None => forall|i: int| 0 <= i < self@.len() ==> (#[trigger] self@[i]).0 != key,
            },
    {
        let mut j: usize = 0;
        while j < self.entries.len()
            invariant
                j <= self.entries.len(),
                self@.len() == self.entries@.len(),
                forall|i: int| 0 <= i < j ==> (#[trigger] self@[i]).0 != key,
            decreases self.entries.len() - j,
        {
            if self.entries[j].0 == key {
                proof {
                    assert(self@[j as int].0 == key);
                }
                return Some(&self.entries[j].1);
            }
            j = j + 1;
        }
        None
    }

    /// Inserts an entry, keeping key order; an existing entry of the same
    /// key is replaced.
    pub fn insert(&mut self, key: u32, value: V)
        requires
            old(self).wf(),
        ensures
            final(self)@ == spec_insert(old(self)@, key, value@),
            final(self).wf(),
    {
        proof {
            lemma_spec_insert_sorted(self@, key, value@);
        }
        let ghost prev = self@;
        let mut p: usize = 0;
        while p < self.entries.len() && self.entries[p].0 < key
            invariant
                p <= self.entries.len(),
                self@.len() == self.entries@.len(),
                self@ == prev,
                forall|i: int| 0 <= i < p ==> (#[trigger] self@[i]).0 < key,
            decreases self.entries.len() - p,
        {
            p = p + 1;
        }
        if p < self.entries.len() && self.entries[p].0 == key {
            self.entries[p] = (key, value);
            proof {
                lemma_spec_insert_at(prev, key, final(self)@[p as int].1, p as int);
                assert(final(self)@ =~= prev.take(p as int) + seq![(key, final(self)@[p as int].1)]
                    + prev.skip(p + 1));
            }
        } else {
            self.entries.insert(p, (key, value));
            proof {
                lemma_spec_insert_at(prev, key, final(self)@[p as int].1, p as int);
                assert(final(self)@ =~= prev.take(p as int) + seq![(key, final(self)@[p as int].1)]
                    + prev.skip(p as int));
            }
        }
    }
}

/// Unrolls `spec_insert` at the insertion position `p`: the entries below
/// `p` stay, the new entry lands at `p`, and the tail follows, shifted when
/// the key was new.
pub proof fn lemma_spec_insert_at<T>(s: Seq<(u32, T)>, k: u32, v: T, p: int)
    requires
        sorted_keys(s),
        0 <= p <= s.len(),
        forall|i: int| 0 <= i < p ==> (#[trigger] s[i]).0 < k,
        p < s.len() ==> s[p].0 >= k,
    ensures
        p < s.len() && s[p].0 == k ==> spec_insert(s, k, v) == s.take(p) + seq![(k, v)] + s.skip(
            p + 1,
        ),
        !(p < s.len() && s[p].0 == k) ==> spec_insert(s, k, v) == s.take(p) + seq![(k, v)] + s.skip(
            p,
        ),
    decreases s.len(),
{
    if p == 0 {
        if s.len() > 0 && s[0].0 == k {
            assert(spec_insert(s, k, v) =~= s.take(0) + seq![(k, v)] + s.skip(1));
        } else {
            assert(spec_insert(s, k, v) =~= s.take(0) + seq![(k, v)] + s.skip(0));
        }
    } else {
        assert(s[0].0 < k);
        assert(sorted_keys(s.skip(1)));
        assert(forall|i: int| 0 <= i < p - 1 ==> (#[trigger] s.skip(1)[i]).0 < k);
        lemma_spec_insert_at(s.skip(1), k, v, p - 1);
        if p < s.len() && s[p].0 == k {
            assert(s.skip(1)[p - 1].0 == k);
            assert(spec_insert(s, k, v) =~= s.take(p) + seq![(k, v)] + s.skip(p + 1));
        } else {
            assert(spec_insert(s, k, v) =~= s.take(p) + seq![(k, v)] + s.skip(p));
        }
    }
}

} // verus!
