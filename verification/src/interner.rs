//! Interning: structural values in, small dense handles out. A table keeps
//! the values by handle, and an index finds the handle of a value by its hash.

use std::collections::HashMap;
use vstd::prelude::*;

verus! {

/// The most values one interner holds: every handle fits in 32 bits.
pub const INTERNER_CAPACITY: usize = 0xFFFF_FFFF;

/// Is `i` the first index at which `v` stands in `table`?
pub open spec fn is_first_index<V>(table: Seq<V>, v: V, i: int) -> bool {
    &&& 0 <= i < table.len()
    &&& table[i] == v
    &&& forall|j: int| 0 <= j < i ==> table[j] != v
}

/// The handle that interning `v` into `table` gives: the first index at
/// which `v` stands, or the next free index where it stands nowhere.
pub open spec fn handle_of<V>(table: Seq<V>, v: V) -> int {
    if table.contains(v) {
        choose|i: int| is_first_index(table, v, i)
    } else {
        table.len() as int
    }
}

/// The table after interning `v`: unchanged where `v` is known, else with `v`
/// at the end.
pub open spec fn after_intern<V>(table: Seq<V>, v: V) -> Seq<V> {
    if table.contains(v) {
        table
    } else {
        table.push(v)
    }
}

/// A value that stands in the table has exactly one first index, and
/// `handle_of` is it.
pub proof fn lemma_handle_of_known<V>(table: Seq<V>, v: V, i: int)
    requires
        is_first_index(table, v, i),
    ensures
        table.contains(v),
        handle_of(table, v) == i,
{
    let h = choose|k: int| is_first_index(table, v, k);
    assert(is_first_index(table, v, h));
    if h < i {
        assert(table[h] != v);
    } else if i < h {
        assert(table[i] != v);
    }
}

/// The handle of a value that stands in the table is an index at which it
/// stands, and no earlier index holds it.
pub proof fn lemma_handle_of_contained<V>(table: Seq<V>, v: V)
    requires
        table.contains(v),
    ensures
        is_first_index(table, v, handle_of(table, v)),
{
    let w = choose|k: int| 0 <= k < table.len() && table[k] == v;
    lemma_first_index_exists(table, v, w);
}

/// Below any index that holds `v` there is a first one.
proof fn lemma_first_index_exists<V>(table: Seq<V>, v: V, w: int)
    requires
        0 <= w < table.len(),
        table[w] == v,
    ensures
        exists|i: int| is_first_index(table, v, i),
    decreases w,
{
    if forall|j: int| 0 <= j < w ==> table[j] != v {
        assert(is_first_index(table, v, w));
    } else {
        let j = choose|j: int| 0 <= j < w && table[j] == v;
        lemma_first_index_exists(table, v, j);
    }
}

/// Interning is idempotent: a second interning of the same value finds the
/// table as the first left it, and gives the same handle.
pub proof fn lemma_intern_idempotent<V>(table: Seq<V>, v: V)
    ensures
        after_intern(after_intern(table, v), v) == after_intern(table, v),
        handle_of(after_intern(table, v), v) == handle_of(table, v),
{
    let t = after_intern(table, v);
    if !table.contains(v) {
        assert(t[table.len() as int] == v);
        assert(is_first_index(t, v, table.len() as int));
        lemma_handle_of_known(t, v, table.len() as int);
    }
}

/// Interning never collides: two different values, interned one after the
/// other, get two different handles.
pub proof fn lemma_intern_distinct<V>(table: Seq<V>, v: V, w: V)
    requires
        v != w,
    ensures
        handle_of(table, v) != handle_of(after_intern(table, v), w),
{
    let t = after_intern(table, v);
    lemma_intern_idempotent(table, v);
    assert(t.contains(v)) by {
        if !table.contains(v) {
            assert(t[table.len() as int] == v);
        }
    }
    lemma_handle_of_contained(t, v);
    if t.contains(w) {
        lemma_handle_of_contained(t, w);
    }
}

/// Handles are stable: interning another value afterwards leaves the handle
/// of a known value as it was, and the table only grows at its end.
pub proof fn lemma_intern_stable<V>(table: Seq<V>, v: V, w: V)
    requires
        table.contains(v),
    ensures
        handle_of(after_intern(table, w), v) == handle_of(table, v),
        after_intern(table, w).len() >= table.len(),
        after_intern(table, w).subrange(0, table.len() as int) == table,
{
    let t = after_intern(table, w);
    lemma_handle_of_contained(table, v);
    let h = handle_of(table, v);
    assert(is_first_index(t, v, h));
    lemma_handle_of_known(t, v, h);
    assert(t.subrange(0, table.len() as int) =~= table);
}

/// A value that can be interned: its view is what decides whether two values
/// are the same, and its hash is a number that equal values share.
pub trait Internable: View + Sized {
    /// The hash of a value: any function of the view will do.
    spec fn spec_hash(v: Self::V) -> u64;

    /// Structural equality: do the two values have the same view?
    fn same(&self, other: &Self) -> (r: bool)
        ensures
            r == (self@ == other@),
    ;

    /// A copy with the same view.
    fn duplicate(&self) -> (r: Self)
        ensures
            r@ == self@,
    ;

    /// The hash of the value.
    fn hash(&self) -> (r: u64)
        ensures
            r == Self::spec_hash(self@),
    ;
}

/// One step of hashing: folds one more number into the hash so far.
pub open spec fn spec_mix(h: u64, x: u64) -> u64 {
    h.wrapping_mul(0x100_0000_01b3).wrapping_add(x)
}

/// One step of hashing: folds one more number into the hash so far.
pub fn mix(h: u64, x: u64) -> (r: u64)
    ensures
        r == spec_mix(h, x),
{
    h.wrapping_mul(0x100_0000_01b3).wrapping_add(x)
}

/// The handles that the index lists under a hash.
spec fn bucket_of(index: Map<u64, Vec<u32>>, k: u64) -> Seq<u32> {
    if index.contains_key(k) {
        index[k]@
    } else {
        Seq::empty()
    }
}

/// The list rises: every entry is less than the ones after it.
spec fn rising(s: Seq<u32>) -> bool {
    forall|p: int, q: int| 0 <= p < q < s.len() ==> s[p] < s[q]
}

/// The index lists the handles of a table whose values have these hashes,
/// all but the handle `skip`: every other handle is listed under the hash of
/// its value and nowhere else, `skip` is listed nowhere, and each list
/// rises.
spec fn lists(index: Map<u64, Vec<u32>>, hashes: Seq<u64>, skip: int) -> bool {
    &&& hashes.len() <= INTERNER_CAPACITY
    &&& forall|i: int|
        0 <= i < hashes.len() && i != skip ==> (#[trigger] bucket_of(index, hashes[i])).contains(
            i as u32,
        )
    &&& forall|k: u64, p: int|
        0 <= p < bucket_of(index, k).len() ==> {
            &&& (#[trigger] bucket_of(index, k)[p] as int) < hashes.len()
            &&& bucket_of(index, k)[p] as int != skip
            &&& hashes[bucket_of(index, k)[p] as int] == k
        }
    &&& forall|k: u64| rising(#[trigger] bucket_of(index, k))
}

/// The index is that of a table whose values have these hashes.
spec fn indexes(index: Map<u64, Vec<u32>>, hashes: Seq<u64>) -> bool {
    lists(index, hashes, -1)
}

/// A rising list with one entry taken out still rises; it holds what it
/// held but that entry.
proof fn lemma_rising_remove(s: Seq<u32>, p: int)
    requires
        rising(s),
        0 <= p < s.len(),
    ensures
        rising(s.remove(p)),
        !s.remove(p).contains(s[p]),
        forall|x: u32| x != s[p] && s.contains(x) ==> s.remove(p).contains(x),
        forall|q: int| 0 <= q < s.remove(p).len() ==> s.contains(#[trigger] s.remove(p)[q]),
{
    let t = s.remove(p);
    s.remove_ensures(p);
    assert forall|a: int, b: int| 0 <= a < b < t.len() implies t[a] < t[b] by {
        let a0 = if a < p { a } else { a + 1 };
        let b0 = if b < p { b } else { b + 1 };
        assert(t[a] == s[a0] && t[b] == s[b0]);
    }
    assert forall|q: int| 0 <= q < t.len() implies s.contains(#[trigger] t[q]) && t[q] != s[p] by {
        let q0 = if q < p { q } else { q + 1 };
        assert(t[q] == s[q0]);
    }
    assert forall|x: u32| x != s[p] && s.contains(x) implies t.contains(x) by {
        let q0 = choose|q0: int| 0 <= q0 < s.len() && s[q0] == x;
        let q = if q0 < p { q0 } else { q0 - 1 };
        assert(t[q] == x);
    }
}

/// A rising list with an entry put in at its place still rises; it holds
/// what it held and that entry.
proof fn lemma_rising_insert(s: Seq<u32>, p: int, x: u32)
    requires
        rising(s),
        0 <= p <= s.len(),
        forall|q: int| 0 <= q < p ==> s[q] < x,
        forall|q: int| p <= q < s.len() ==> x < s[q],
    ensures
        rising(s.insert(p, x)),
        s.insert(p, x).contains(x),
        forall|y: u32| s.contains(y) ==> s.insert(p, x).contains(y),
        forall|q: int|
            0 <= q < s.insert(p, x).len() ==> (#[trigger] s.insert(p, x)[q]) == x || s.contains(
                s.insert(p, x)[q],
            ),
{
    let t = s.insert(p, x);
    s.insert_ensures(p, x);
    assert forall|q: int| 0 <= q < t.len() implies (#[trigger] t[q]) == x || s.contains(t[q]) by {
        if q < p {
            assert(t[q] == s[q]);
        } else if q > p {
            assert(t[(q - 1) + 1] == s[q - 1]);
        }
    }
    assert forall|a: int, b: int| 0 <= a < b < t.len() implies t[a] < t[b] by {
        if a < p {
            assert(t[a] == s[a]);
        } else if a > p {
            assert(t[(a - 1) + 1] == s[a - 1]);
        }
        if b < p {
            assert(t[b] == s[b]);
        } else if b > p {
            assert(t[(b - 1) + 1] == s[b - 1]);
        }
    }
    assert(t[p] == x);
    assert forall|y: u32| s.contains(y) implies t.contains(y) by {
        let q0 = choose|q0: int| 0 <= q0 < s.len() && s[q0] == y;
        if q0 < p {
            assert(t[q0] == y);
        } else {
            assert(t[q0 + 1] == y);
        }
    }
}

/// When one list of the index is replaced, the index lists what the new
/// list and the old other lists hold.
proof fn lemma_one_bucket_changed(
    before: Map<u64, Vec<u32>>,
    after: Map<u64, Vec<u32>>,
    h: u64,
    old_hashes: Seq<u64>,
    old_skip: int,
    hashes: Seq<u64>,
    skip: int,
)
    requires
        lists(before, old_hashes, old_skip),
        old_hashes.len() <= hashes.len() <= INTERNER_CAPACITY,
        forall|k: u64| k != h ==> #[trigger] bucket_of(after, k) == bucket_of(before, k),
        rising(bucket_of(after, h)),
        // the other lists still fit the hashes
        forall|i: int|
            0 <= i < old_hashes.len() && i != old_skip && old_hashes[i] != h ==> #[trigger] hashes[i]
                == old_hashes[i] && i != skip,
        // the new list fits the hashes
        forall|p: int|
            0 <= p < bucket_of(after, h).len() ==> {
                &&& (#[trigger] bucket_of(after, h)[p] as int) < hashes.len()
                &&& bucket_of(after, h)[p] as int != skip
                &&& hashes[bucket_of(after, h)[p] as int] == h
            },
        // every handle with this hash is in the new list
        forall|i: int|
            0 <= i < hashes.len() && i != skip && #[trigger] hashes[i] == h ==> bucket_of(
                after,
                h,
            ).contains(i as u32),
        // every handle with another hash had that hash before
        forall|i: int|
            0 <= i < hashes.len() && i != skip && #[trigger] hashes[i] != h ==> i < old_hashes.len()
                && i != old_skip && old_hashes[i] == hashes[i],
    ensures
        lists(after, hashes, skip),
{
    assert forall|i: int| 0 <= i < hashes.len() && i != skip implies (#[trigger] bucket_of(
        after,
        hashes[i],
    )).contains(i as u32) by {
        if hashes[i] != h {
            assert(bucket_of(before, old_hashes[i]).contains(i as u32));
        }
    }
    assert forall|k: u64, p: int| 0 <= p < bucket_of(after, k).len() implies {
        &&& (#[trigger] bucket_of(after, k)[p] as int) < hashes.len()
        &&& bucket_of(after, k)[p] as int != skip
        &&& hashes[bucket_of(after, k)[p] as int] == k
    } by {
        if k != h {
            let e = bucket_of(before, k)[p] as int;
            assert(old_hashes[e] == k);
            assert(hashes[e] == old_hashes[e]);
        }
    }
    assert forall|k: u64| rising(#[trigger] bucket_of(after, k)) by {
        if k != h {
            assert(rising(bucket_of(before, k)));
        }
    }
}

/// Takes the list of a hash out of the index, to put it back changed.
fn take_bucket(index: &mut HashMap<u64, Vec<u32>>, h: u64) -> (r: Vec<u32>)
    ensures
        r@ == bucket_of(old(index)@, h),
        final(index)@ == old(index)@.remove(h),
{
    broadcast use vstd::std_specs::hash::group_hash_axioms;

    match index.remove(&h) {
        Some(bucket) => bucket,
        None => Vec::new(),
    }
}

/// Puts the list of a hash into the index.
fn put_bucket(index: &mut HashMap<u64, Vec<u32>>, h: u64, bucket: Vec<u32>)
    ensures
        bucket_of(final(index)@, h) == bucket@,
        forall|k: u64| k != h ==> #[trigger] bucket_of(final(index)@, k) == bucket_of(old(index)@, k),
{
    broadcast use vstd::std_specs::hash::group_hash_axioms;

    index.insert(h, bucket);
}

/// Lists the next handle under the hash of its value.
fn index_push(index: &mut HashMap<u64, Vec<u32>>, h: u64, n: u32, Ghost(hashes): Ghost<Seq<u64>>)
    requires
        indexes(old(index)@, hashes),
        n == hashes.len(),
        n < INTERNER_CAPACITY,
    ensures
        indexes(final(index)@, hashes.push(h)),
{
    let ghost before = index@;
    let ghost listed = bucket_of(before, h);
    let mut bucket = take_bucket(index, h);
    bucket.push(n);
    put_bucket(index, h, bucket);
    proof {
        let after = index@;
        let grown = hashes.push(h);
        assert forall|k: u64| k != h implies #[trigger] bucket_of(after, k) == bucket_of(
            before,
            k,
        ) by {
            assert(bucket_of(before.remove(h), k) == bucket_of(before, k));
        }
        assert(rising(listed));
        assert forall|p: int| 0 <= p < listed.len() implies (#[trigger] listed[p] as int)
            < hashes.len() && hashes[listed[p] as int] == h by {
            assert(bucket_of(before, h)[p] == listed[p]);
        }
        assert(rising(listed.push(n)));
        assert forall|i: int|
            0 <= i < grown.len() && #[trigger] grown[i] == h implies listed.push(n).contains(
            i as u32,
        ) by {
            if i < hashes.len() {
                assert(bucket_of(before, hashes[i]).contains(i as u32));
                let p = choose|p: int| 0 <= p < listed.len() && listed[p] == i as u32;
                assert(listed.push(n)[p] == i as u32);
            } else {
                assert(listed.push(n)[listed.len() as int] == n);
            }
        }
        lemma_one_bucket_changed(before, after, h, hashes, -1, grown, -1);
    }
}

/// Takes a handle off the list of the hash that its value had.
fn index_unlist(index: &mut HashMap<u64, Vec<u32>>, h: u64, i: u32, Ghost(hashes): Ghost<Seq<u64>>)
    requires
        indexes(old(index)@, hashes),
        i < hashes.len(),
        hashes[i as int] == h,
    ensures
        lists(final(index)@, hashes, i as int),
{
    let ghost before = index@;
    let ghost listed = bucket_of(before, h);
    let mut bucket = take_bucket(index, h);
    proof {
        assert(bucket_of(before, hashes[i as int]).contains(i));
        assert(rising(listed));
    }
    let m = bucket.len();
    let mut p: usize = 0;
    while p < m && bucket[p] != i
        invariant
            bucket@ == listed,
            m == listed.len(),
            p <= m,
            listed.contains(i),
            forall|q: int| 0 <= q < p ==> listed[q] != i,
        decreases m - p,
    {
        p = p + 1;
    }
    proof {
        if p == m {
            let q = choose|q: int| 0 <= q < listed.len() && listed[q] == i;
            assert(false);
        }
    }
    bucket.remove(p);
    put_bucket(index, h, bucket);
    proof {
        let after = index@;
        lemma_rising_remove(listed, p as int);
        assert forall|k: u64| k != h implies #[trigger] bucket_of(after, k) == bucket_of(
            before,
            k,
        ) by {
            assert(bucket_of(before.remove(h), k) == bucket_of(before, k));
        }
        let left = listed.remove(p as int);
        assert forall|q: int| 0 <= q < left.len() implies {
            &&& (#[trigger] left[q] as int) < hashes.len()
            &&& left[q] as int != i as int
            &&& hashes[left[q] as int] == h
        } by {
            assert(listed.contains(left[q]));
            let q0 = choose|q0: int| 0 <= q0 < listed.len() && listed[q0] == left[q];
            assert(bucket_of(before, h)[q0] == left[q]);
        }
        assert forall|j: int|
            0 <= j < hashes.len() && j != i as int && #[trigger] hashes[j] == h implies left.contains(
            j as u32,
        ) by {
            assert(bucket_of(before, hashes[j]).contains(j as u32));
        }
        lemma_one_bucket_changed(before, after, h, hashes, -1, hashes, i as int);
    }
}

/// Puts a handle on the list of the hash that its value has now, at its
/// place in the rising order.
fn index_list(index: &mut HashMap<u64, Vec<u32>>, h: u64, i: u32, Ghost(hashes): Ghost<Seq<u64>>)
    requires
        lists(old(index)@, hashes, i as int),
        i < hashes.len(),
    ensures
        indexes(final(index)@, hashes.update(i as int, h)),
{
    let ghost before = index@;
    let ghost listed = bucket_of(before, h);
    let mut bucket = take_bucket(index, h);
    proof {
        assert(rising(listed));
        assert forall|q: int| 0 <= q < listed.len() implies (#[trigger] listed[q]) != i by {
            assert(bucket_of(before, h)[q] as int != i as int);
        }
    }
    let m = bucket.len();
    let mut p: usize = 0;
    while p < m && bucket[p] < i
        invariant
            bucket@ == listed,
            m == listed.len(),
            p <= m,
            forall|q: int| 0 <= q < p ==> listed[q] < i,
        decreases m - p,
    {
        p = p + 1;
    }
    proof {
        assert forall|q: int| p <= q < listed.len() implies i < listed[q] by {
            if q > p {
                assert(listed[p as int] < listed[q]);
            }
            assert(listed[q] != i);
        }
        lemma_rising_insert(listed, p as int, i);
    }
    bucket.insert(p, i);
    put_bucket(index, h, bucket);
    proof {
        let after = index@;
        let moved = hashes.update(i as int, h);
        let more = listed.insert(p as int, i);
        assert forall|k: u64| k != h implies #[trigger] bucket_of(after, k) == bucket_of(
            before,
            k,
        ) by {
            assert(bucket_of(before.remove(h), k) == bucket_of(before, k));
        }
        assert forall|q: int| 0 <= q < more.len() implies {
            &&& (#[trigger] more[q] as int) < moved.len()
            &&& more[q] as int != -1
            &&& moved[more[q] as int] == h
        } by {
            if more[q] != i {
                assert(listed.contains(more[q]));
                let q0 = choose|q0: int| 0 <= q0 < listed.len() && listed[q0] == more[q];
                assert(bucket_of(before, h)[q0] == more[q]);
            }
        }
        assert forall|j: int| 0 <= j < moved.len() && #[trigger] moved[j] == h implies more.contains(
            j as u32,
        ) by {
            if j != i as int {
                assert(hashes[j] == h);
                assert(bucket_of(before, hashes[j]).contains(j as u32));
            }
        }
        assert forall|j: int|
            0 <= j < hashes.len() && j != i as int && hashes[j] != h implies #[trigger] moved[j]
            == hashes[j] by {}
        lemma_one_bucket_changed(before, after, h, hashes, i as int, moved, -1);
    }
}

/// A table of interned values with an index from values to handles. The
/// handle of a value is its position in the table: handles are given out
/// densely from 0, in the order in which values are first seen, and the
/// table only grows. The index finds the handle of a value by its hash.
pub struct Interner<T: Internable> {
    values: Vec<T>,
    index: HashMap<u64, Vec<u32>>,
}

impl<T: Internable> Interner<T> {
    /// The hashes of the values, indexed by handle.
    closed spec fn hashes(&self) -> Seq<u64> {
        Seq::new(self.values@.len(), |i: int| T::spec_hash(self.values@[i]@))
    }

    /// The table is well formed: it holds no more values than handles can
    /// tell apart, and its index is that of its values.
    pub closed spec fn wf(&self) -> bool {
        indexes(self.index@, self.hashes())
    }

    /// The views of the values, indexed by handle.
    pub closed spec fn view(&self) -> Seq<T::V> {
        Seq::new(self.values@.len(), |i: int| self.values@[i]@)
    }

    /// A well-formed table holds no more values than handles can tell apart.
    pub proof fn lemma_bounded(&self)
        requires
            self.wf(),
        ensures
            self@.len() <= INTERNER_CAPACITY,
    {
    }

    /// An interner that has seen nothing.
    pub fn new() -> (r: Self)
        ensures
            r.wf(),
            r@ == Seq::<T::V>::empty(),
    {
        let r = Interner { values: Vec::new(), index: HashMap::new() };
        assert(r@ =~= Seq::<T::V>::empty());
        assert(r.hashes() =~= Seq::<u64>::empty());
        r
    }

    /// How many values the table holds.
    pub fn len(&self) -> (r: usize)
        requires
            self.wf(),
        ensures
            r == self@.len(),
            r <= INTERNER_CAPACITY,
    {
        self.values.len()
    }

    /// The first handle whose value equals `value`, if there is one.
    pub fn find(&self, value: &T) -> (r: Option<u32>)
        requires
            self.wf(),
        ensures
            match r {
                Some(h) => h < self@.len() && self@[h as int] == value@ && forall|j: int|
                    0 <= j < h ==> self@[j] != value@,
                None => !self@.contains(value@),
            },
    {
        broadcast use vstd::std_specs::hash::group_hash_axioms;

        let h = value.hash();
        let ghost listed = bucket_of(self.index@, h);
        proof {
            assert forall|j: int| 0 <= j < self@.len() && self@[j] == value@ implies listed.contains(
                j as u32,
            ) by {
                assert(self.hashes()[j] == h);
                assert(bucket_of(self.index@, self.hashes()[j]).contains(j as u32));
            }
        }
        match self.index.get(&h) {
            None => {
                proof {
                    if self@.contains(value@) {
                        let j = choose|j: int| 0 <= j < self@.len() && self@[j] == value@;
                        assert(listed.contains(j as u32));
                    }
                }
                None
            },
            Some(bucket) => {
                assert(bucket@ == listed);
                let m = bucket.len();
                let mut p: usize = 0;
                while p < m
                    invariant
                        self.wf(),
                        bucket@ == listed,
                        listed == bucket_of(self.index@, h),
                        m == listed.len(),
                        p <= m,
                        forall|q: int| 0 <= q < p ==> self@[listed[q] as int] != value@,
                    decreases m - p,
                {
                    let candidate = bucket[p];
                    assert(bucket_of(self.index@, h)[p as int] == candidate);
                    assert((candidate as int) < self.hashes().len());
                    if self.values[candidate as usize].same(value) {
                        proof {
                            assert forall|j: int| 0 <= j < candidate implies self@[j]
                                != value@ by {
                                if self@[j] == value@ {
                                    assert(self.hashes()[j] == h);
                                    assert(bucket_of(self.index@, self.hashes()[j]).contains(
                                        j as u32,
                                    ));
                                    let q = choose|q: int|
                                        0 <= q < listed.len() && listed[q] == j as u32;
                                    assert(bucket_of(self.index@, h)[q] == j as u32);
                                    assert(rising(bucket_of(self.index@, h)));
                                    if q > p {
                                        assert(listed[p as int] < listed[q]);
                                    }
                                }
                            }
                        }
                        return Some(candidate);
                    }
                    p = p + 1;
                }
                proof {
                    if self@.contains(value@) {
                        let j = choose|j: int| 0 <= j < self@.len() && self@[j] == value@;
                        assert(listed.contains(j as u32));
                        let q = choose|q: int| 0 <= q < listed.len() && listed[q] == j as u32;
                        assert(self@[listed[q] as int] != value@);
                    }
                }
                None
            },
        }
    }

    /// The handle of `value`: the one it already has, or else the next free
    /// one, under which a copy of the value is then kept. `None` only where
    /// the value is new and the table is full.
    pub fn intern(&mut self, value: &T) -> (r: Option<u32>)
        requires
            old(self).wf(),
        ensures
            final(self).wf(),
            r is None <==> !old(self)@.contains(value@) && old(self)@.len() == INTERNER_CAPACITY,
            match r {
                Some(h) => {
                    &&& h == handle_of(old(self)@, value@)
                    &&& final(self)@ == after_intern(old(self)@, value@)
                    &&& h < final(self)@.len()
                    &&& final(self)@[h as int] == value@
                },
                None => final(self)@ == old(self)@,
            },
    {
        match self.find(value) {
            Some(h) => {
                proof {
                    lemma_handle_of_known(self@, value@, h as int);
                }
                Some(h)
            },
            None => {
                let n = self.values.len();
                if n >= INTERNER_CAPACITY {
                    None
                } else {
                    let copy = value.duplicate();
                    let h = copy.hash();
                    let ghost hashes = self.hashes();
                    index_push(&mut self.index, h, n as u32, Ghost(hashes));
                    self.values.push(copy);
                    assert(self@ =~= old(self)@.push(value@));
                    assert(self.hashes() =~= hashes.push(h));
                    Some(n as u32)
                }
            },
        }
    }

    /// The value behind a handle; `None` for a handle this table never gave
    /// out.
    pub fn get(&self, index: u32) -> (r: Option<&T>)
        ensures
            match r {
                Some(v) => index < self@.len() && v@ == self@[index as int],
                None => index >= self@.len(),
            },
    {
        if (index as usize) < self.values.len() {
            Some(&self.values[index as usize])
        } else {
            None
        }
    }

    /// Overwrites the value behind a handle in place. The handle stays, and so
    /// does every other entry; `false`, and nothing changes, for a handle this
    /// table never gave out.
    pub fn set(&mut self, index: u32, value: T) -> (r: bool)
        requires
            old(self).wf(),
        ensures
            final(self).wf(),
            r == (index < old(self)@.len()),
            r ==> final(self)@ == old(self)@.update(index as int, value@),
            !r ==> final(self)@ == old(self)@,
    {
        if (index as usize) >= self.values.len() {
            return false;
        }
        let was = self.values[index as usize].hash();
        let now = value.hash();
        let ghost hashes = self.hashes();
        assert(hashes[index as int] == was);
        if was != now {
            index_unlist(&mut self.index, was, index, Ghost(hashes));
            index_list(&mut self.index, now, index, Ghost(hashes));
        } else {
            assert(hashes.update(index as int, now) =~= hashes);
        }
        self.values.set(index as usize, value);
        assert(self@ =~= old(self)@.update(index as int, value@));
        assert(self.hashes() =~= hashes.update(index as int, now));
        true
    }
}

} // verus!
