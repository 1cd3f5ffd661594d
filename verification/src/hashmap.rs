//! A hash table with chaining, and the hasher it uses.
//!
//! The table is an array of buckets, its length a power of two. A key goes
//! to the bucket that the low bits of its hash select. An insertion always
//! appends: a key that is inserted twice is held twice, and lookups and
//! removals act on the entry that has been in the bucket longest.

#![allow(unused_imports)]

use std::hash::{Hash, Hasher};
use vstd::arithmetic::power2::is_pow2;
use vstd::prelude::*;
use vstd::std_specs::cmp::PartialEqSpec;

verus! {

/// The multiplier of the hash: a tenth of 2^64 divided by the golden
/// ratio.
pub const FIBONACCI_MAGIC: u64 = 1_140_071_481_932_319_848;

/// The hash state after one more byte.
pub open spec fn mix(state: u64, byte: u8) -> u64 {
    ((FIBONACCI_MAGIC * state + byte) % 0x1_0000_0000_0000_0000) as u64
}

/// The hash state after all of `bytes`, first to last.
pub open spec fn mix_all(state: u64, bytes: Seq<u8>) -> u64
    decreases bytes.len(),
{
    if bytes.len() == 0 {
        state
    } else {
        mix(mix_all(state, bytes.drop_last()), bytes.last())
    }
}

/// A multiplicative hasher: each byte multiplies the state by a constant
/// and is added to it, modulo 2^64.
#[derive(Clone, Copy, Hash)]
pub struct FibonacciHash(u64);

impl FibonacciHash {
    /// The 64 bits of state.
    pub closed spec fn state(&self) -> u64 {
        self.0
    }
}

impl Default for FibonacciHash {
    fn default() -> (hasher: Self)
        ensures
            hasher.state() == 0,
    {
        FibonacciHash(0)
    }
}

impl Hasher for FibonacciHash {
    fn finish(&self) -> (digest: u64)
        ensures
            digest == self.state(),
    {
        self.0
    }

    fn write(&mut self, bytes: &[u8])
        ensures
            final(self).state() == mix_all(old(self).state(), bytes@),
    {
        let mut i: usize = 0;
        while i < bytes.len()
            invariant
                i <= bytes.len(),
                self.0 == mix_all(old(self).0, bytes@.take(i as int)),
            decreases bytes.len() - i,
        {
            let byte = bytes[i];
            proof {
                lemma_mix(self.0, byte);
                assert(bytes@.take(i + 1).drop_last() =~= bytes@.take(i as int));
            }
            self.0 = FIBONACCI_MAGIC.wrapping_mul(self.0).wrapping_add(byte as u64);
            i += 1;
        }
        assert(bytes@.take(i as int) =~= bytes@);
    }
}

/// Multiplying and adding with wrap-around is multiplying and adding
/// modulo 2^64.
proof fn lemma_mix(state: u64, byte: u8)
    ensures
        FIBONACCI_MAGIC.wrapping_mul(state).wrapping_add(byte as u64) == mix(state, byte),
{
    let m: int = 0x1_0000_0000_0000_0000;
    let product: int = FIBONACCI_MAGIC * state;
    assert(product >= 0) by (nonlinear_arith)
        requires
            product == FIBONACCI_MAGIC * state,
    ;
    vstd::arithmetic::div_mod::lemma_add_mod_noop(product, byte as int, m);
    vstd::arithmetic::div_mod::lemma_small_mod(byte as nat, m as nat);
    let low: int = product % m;
    assert(0 <= low < m);
    if low + byte >= m {
        vstd::arithmetic::div_mod::lemma_mod_sub_multiples_vanish(low + byte, m);
        vstd::arithmetic::div_mod::lemma_small_mod((low + byte - m) as nat, m as nat);
    } else {
        vstd::arithmetic::div_mod::lemma_small_mod((low + byte) as nat, m as nat);
    }
}

/// Trusted: calls `Hash::hash` of the key's type with `state` as the
/// hasher. What the key writes is up to its type, so nothing is claimed of
/// the state afterwards.
#[verifier::external_body]
fn feed<K: Hash>(key: &K, state: &mut FibonacciHash) {
    key.hash(state)
}

/// Trusted: calls `usize::next_power_of_two` of std, which returns the
/// smallest power of two that is not below `n`. It overflows when `n` is
/// above the greatest power of two that a `usize` holds.
#[verifier::external_body]
fn next_power_of_two(n: usize) -> (p: usize)
    requires
        n <= usize::MAX / 2 + 1,
    ensures
        is_pow2(p as int),
        n <= p,
        forall|q: int| is_pow2(q) && n <= q ==> p <= q,
{
    n.next_power_of_two()
}

#[derive(Clone, Debug, PartialEq, Eq, PartialOrd, Ord, Hash)]
struct HashMapEntry<K, V> {
    key: K,
    value: V,
}

impl<K, V> HashMapEntry<K, V> {
    fn new(key: K, value: V) -> (entry: Self)
        ensures
            entry.key == key,
            entry.value == value,
    {
        Self { key, value }
    }
}

/// `entry` is the first in `bucket` whose key equals `key`.
pub open spec fn is_first_match<K: PartialEq, V>(bucket: Seq<(K, V)>, key: K, entry: int) -> bool {
    &&& 0 <= entry < bucket.len()
    &&& bucket[entry].0.eq_spec(&key)
    &&& forall|i: int| 0 <= i < entry ==> !(#[trigger] bucket[i]).0.eq_spec(&key)
}

/// No entry of `bucket` has a key equal to `key`.
pub open spec fn no_match<K: PartialEq, V>(bucket: Seq<(K, V)>, key: K) -> bool {
    forall|i: int| 0 <= i < bucket.len() ==> !(#[trigger] bucket[i]).0.eq_spec(&key)
}

/// What a lookup of `key` in `bucket` may return. It returns the value of
/// an entry of the bucket or nothing. Where `==` on keys is the equality
/// that its specification states, the entry is the first with an equal
/// key, and nothing is returned only when no key is equal.
pub open spec fn lookup_in<K: PartialEq, V>(bucket: Seq<(K, V)>, key: K, found: Option<&V>) -> bool {
    match found {
        Some(value) => exists|entry: int|
            {
                &&& 0 <= entry < bucket.len()
                &&& *value == (#[trigger] bucket[entry]).1
                &&& K::obeys_eq_spec() ==> is_first_match(bucket, key, entry)
            },
        None => K::obeys_eq_spec() ==> no_match(bucket, key),
    }
}

/// What a removal of `key` from the bucket `index` does to the buckets
/// `before`. It takes one entry out of that bucket and returns its value,
/// or takes out nothing and returns nothing. Where `==` on keys is the
/// equality that its specification states, the entry is the first with an
/// equal key, and nothing is taken only when no key is equal.
pub open spec fn removal_in<K: PartialEq, V>(
    before: Seq<Seq<(K, V)>>,
    index: int,
    key: K,
    removed: Option<V>,
    after: Seq<Seq<(K, V)>>,
) -> bool {
    match removed {
        Some(value) => exists|entry: int|
            {
                &&& 0 <= entry < before[index].len()
                &&& value == (#[trigger] before[index][entry]).1
                &&& after == before.update(index, before[index].remove(entry))
                &&& K::obeys_eq_spec() ==> is_first_match(before[index], key, entry)
            },
        None => {
            &&& after == before
            &&& K::obeys_eq_spec() ==> no_match(before[index], key)
        },
    }
}

/// Appending to a bucket does not change which entry a lookup finds, when
/// it found one before: the older entry wins.
pub proof fn lemma_push_keeps_first_match<K: PartialEq, V>(
    bucket: Seq<(K, V)>,
    key: K,
    entry: int,
    appended: (K, V),
)
    requires
        is_first_match(bucket, key, entry),
    ensures
        is_first_match(bucket.push(appended), key, entry),
{
}

/// Appending an entry to a bucket that held no equal key makes it the one
/// that a lookup of its key finds, provided the key equals itself.
pub proof fn lemma_push_makes_first_match<K: PartialEq, V>(bucket: Seq<(K, V)>, key: K, value: V)
    requires
        no_match(bucket, key),
        key.eq_spec(&key),
    ensures
        is_first_match(bucket.push((key, value)), key, bucket.len() as int),
{
}

/// `count` buckets with nothing in them.
pub open spec fn empty_buckets<K, V>(count: nat) -> Seq<Seq<(K, V)>> {
    Seq::new(count, |i: int| Seq::empty())
}

/// The buckets of a table as sequences of key and value.
spec fn model<K, V>(entries: Seq<Vec<HashMapEntry<K, V>>>) -> Seq<Seq<(K, V)>> {
    Seq::new(
        entries.len(),
        |i: int| Seq::new(entries[i]@.len(), |j: int| (entries[i]@[j].key, entries[i]@[j].value)),
    )
}

/// A hash table from `K` to `V`.
#[derive(Hash)]
pub struct HashMap<K, V> where K: Eq + Hash + Clone, V: Clone {
    entries: Vec<Vec<HashMapEntry<K, V>>>,
    size: usize,
    capacity: usize,
    capacity_mask: usize,
    hasher: FibonacciHash,
}

impl<K, V> View for HashMap<K, V> where K: Eq + Hash + Clone, V: Clone {
    type V = Seq<Seq<(K, V)>>;

    /// The buckets, each with its entries in the order of their insertion.
    closed spec fn view(&self) -> Seq<Seq<(K, V)>> {
        model(self.entries@)
    }
}

impl<K, V> HashMap<K, V> where K: Eq + Hash + Clone, V: Clone {
    /// The table is in order: it has as many buckets as its capacity says,
    /// a power of two, and its size is the number of entries in them.
    pub closed spec fn wf(&self) -> bool {
        &&& self.entries@.len() == self.capacity
        &&& self.capacity >= 1
        &&& is_pow2(self.capacity as int)
        &&& self.capacity_mask == self.capacity - 1
        &&& self.size == model(self.entries@).flatten().len()
    }

    /// A table of sixteen buckets.
    pub fn new() -> (map: Self)
        ensures
            map.wf(),
            map@.flatten().len() == 0,
            map@ == empty_buckets::<K, V>(16),
    {
        let entries = Self::buckets(16);
        proof {
            reveal_with_fuel(is_pow2, 5);
        }
        Self { entries, size: 0, capacity: 16, capacity_mask: 15, hasher: FibonacciHash::default() }
    }

    /// A table with room for `capacity` entries at one per bucket: the
    /// number of buckets is the least power of two that is not below it.
    pub fn with_capacity(capacity: usize) -> (map: Self)
        requires
            capacity <= usize::MAX / 2 + 1,
        ensures
            map.wf(),
            map@.flatten().len() == 0,
            map@ == empty_buckets::<K, V>(map@.len()),
            is_pow2(map@.len() as int),
            capacity <= map@.len(),
            forall|q: int| is_pow2(q) && capacity <= q ==> map@.len() <= q,
    {
        let capacity = next_power_of_two(capacity);
        proof {
            reveal(is_pow2);
        }
        let entries = Self::buckets(capacity);
        Self {
            entries,
            size: 0,
            capacity,
            capacity_mask: capacity - 1,
            hasher: FibonacciHash::default(),
        }
    }

    /// The bucket of `key`: the low bits of its hash.
    ///
    /// The hash is whatever the key's `Hash` writes into the hasher, so
    /// all that is known of the bucket here is that the table has it.
    pub fn hash(&self, key: &K) -> (index: usize)
        requires
            self.wf(),
        ensures
            index < self@.len(),
    {
        let mut hasher = self.hasher.clone();
        feed(key, &mut hasher);
        self.bucket_of(hasher.finish())
    }

    /// The bucket that a hash selects: as many of its low bits as number
    /// the buckets.
    pub fn bucket_of(&self, digest: u64) -> (index: usize)
        requires
            self.wf(),
        ensures
            index == (digest as usize) & ((self@.len() - 1) as usize),
            index < self@.len(),
    {
        let low = #[verifier::truncate] (digest as usize);
        let mask = self.capacity_mask;
        assert(low & mask <= mask) by (bit_vector);
        low & mask
    }

    /// Appends an entry to the bucket of its key. An entry with an equal
    /// key that is there already stays, in front of the new one.
    pub fn insert(&mut self, key: K, value: V)
        requires
            old(self).wf(),
            old(self)@.flatten().len() < usize::MAX,
        ensures
            final(self).wf(),
            final(self)@.flatten().len() == old(self)@.flatten().len() + 1,
            exists|index: int|
                0 <= index < old(self)@.len() && final(self)@ == #[trigger] old(self)@.update(
                    index,
                    old(self)@[index].push((key, value)),
                ),
    {
        let index = self.hash(&key);
        self.insert_at(index, key, value);
    }

    /// Appends an entry to the bucket `index`.
    pub fn insert_at(&mut self, index: usize, key: K, value: V)
        requires
            old(self).wf(),
            index < old(self)@.len(),
            old(self)@.flatten().len() < usize::MAX,
        ensures
            final(self).wf(),
            final(self)@.flatten().len() == old(self)@.flatten().len() + 1,
            final(self)@ == old(self)@.update(
                index as int,
                old(self)@[index as int].push((key, value)),
            ),
    {
        let entry = HashMapEntry::new(key, value);
        self.entries[index].push(entry);
        self.size += 1;
        proof {
            let before = old(self)@;
            let after = before.update(index as int, before[index as int].push((key, value)));
            assert(model(self.entries@) =~~= after);
            lemma_flatten_update(before, index as int, before[index as int].push((key, value)));
        }
    }

    /// The value of the entry with a key equal to `key` that has been in
    /// the key's bucket longest, if there is one.
    pub fn get(&self, key: &K) -> (found: Option<&V>)
        requires
            self.wf(),
        ensures
            exists|index: int|
                0 <= index < self@.len() && #[trigger] lookup_in(self@[index], *key, found),
    {
        let index = self.hash(key);
        let found = self.get_at(index, key);
        assert(lookup_in(self@[index as int], *key, found));
        found
    }

    /// The value of the first entry in the bucket `index` with a key equal
    /// to `key`, if there is one.
    pub fn get_at(&self, index: usize, key: &K) -> (found: Option<&V>)
        requires
            self.wf(),
            index < self@.len(),
        ensures
            lookup_in(self@[index as int], *key, found),
    {
        let bucket = &self.entries[index];
        let ghost entries = self@[index as int];
        let mut j: usize = 0;
        while j < bucket.len()
            invariant
                j <= bucket.len(),
                index < self@.len(),
                entries == self@[index as int],
                bucket@.len() == entries.len(),
                forall|i: int|
                    0 <= i < entries.len() ==> #[trigger] entries[i] == (bucket@[i].key, bucket@[i].value),
                K::obeys_eq_spec() ==> forall|i: int|
                    0 <= i < j ==> !(#[trigger] entries[i]).0.eq_spec(key),
            decreases bucket.len() - j,
        {
            if bucket[j].key == *key {
                assert(K::obeys_eq_spec() ==> is_first_match(entries, *key, j as int));
                assert(entries[j as int].1 == bucket@[j as int].value);
                return Some(&bucket[j].value);
            }
            j += 1;
        }
        None
    }

    /// Takes out the entry with a key equal to `key` that has been in the
    /// key's bucket longest, and returns its value.
    pub fn remove(&mut self, key: &K) -> (removed: Option<V>)
        requires
            old(self).wf(),
        ensures
            final(self).wf(),
            final(self)@.flatten().len() == old(self)@.flatten().len() - (if removed is Some {
                1int
            } else {
                0
            }),
            exists|index: int|
                0 <= index < old(self)@.len() && #[trigger] removal_in(
                    old(self)@,
                    index,
                    *key,
                    removed,
                    final(self)@,
                ),
    {
        let index = self.hash(key);
        let removed = self.remove_at(index, key);
        assert(removal_in(old(self)@, index as int, *key, removed, self@));
        removed
    }

    /// Takes the first entry with a key equal to `key` out of the bucket
    /// `index`, and returns its value.
    pub fn remove_at(&mut self, index: usize, key: &K) -> (removed: Option<V>)
        requires
            old(self).wf(),
            index < old(self)@.len(),
        ensures
            final(self).wf(),
            final(self)@.flatten().len() == old(self)@.flatten().len() - (if removed is Some {
                1int
            } else {
                0
            }),
            removal_in(old(self)@, index as int, *key, removed, final(self)@),
    {
        let ghost entries = self@[index as int];
        let len = self.entries[index].len();
        let mut j: usize = 0;
        while j < len
            invariant
                j <= len,
                *self == *old(self),
                self.wf(),
                index < self.entries@.len(),
                len == self.entries@[index as int]@.len(),
                entries == self@[index as int],
                K::obeys_eq_spec() ==> forall|i: int|
                    0 <= i < j ==> !(#[trigger] entries[i]).0.eq_spec(key),
            decreases len - j,
        {
            if self.entries[index][j].key == *key {
                proof {
                    assert(K::obeys_eq_spec() ==> is_first_match(entries, *key, j as int));
                    lemma_flatten_update(self@, index as int, entries.remove(j as int));
                }
                self.size -= 1;
                let entry = self.entries[index].remove(j);
                assert(model(self.entries@) =~~= old(self)@.update(
                    index as int,
                    entries.remove(j as int),
                ));
                assert(entry.value == entries[j as int].1);
                return Some(entry.value);
            }
            j += 1;
        }
        None
    }

    /// Empties every bucket. The number of buckets stays.
    pub fn clear(&mut self)
        requires
            old(self).wf(),
        ensures
            final(self).wf(),
            final(self)@.flatten().len() == 0,
            final(self)@ == empty_buckets::<K, V>(old(self)@.len()),
    {
        let mut i: usize = 0;
        while i < self.entries.len()
            invariant
                i <= self.entries@.len(),
                self.entries@.len() == old(self).entries@.len(),
                self.capacity == old(self).capacity,
                self.capacity_mask == old(self).capacity_mask,
                forall|k: int| 0 <= k < i ==> (#[trigger] self.entries@[k])@.len() == 0,
            decreases self.entries@.len() - i,
        {
            self.entries[i].clear();
            i += 1;
        }
        self.size = 0;
        proof {
            assert(model(self.entries@) =~~= empty_buckets::<K, V>(old(self)@.len()));
            lemma_flatten_empty::<K, V>(old(self)@.len());
        }
    }

    /// Every entry, bucket after bucket, each bucket in the order of
    /// insertion.
    pub fn iter(&self) -> (all: Vec<(&K, &V)>)
        requires
            self.wf(),
        ensures
            all@.len() == self@.flatten().len(),
            forall|k: int|
                0 <= k < all@.len() ==> (*(#[trigger] all@[k]).0, *all@[k].1) == self@.flatten()[k],
    {
        let mut all: Vec<(&K, &V)> = Vec::new();
        let mut i: usize = 0;
        while i < self.entries.len()
            invariant
                i <= self.entries@.len(),
                all@.len() == self@.take(i as int).flatten().len(),
                forall|k: int|
                    0 <= k < all@.len() ==> (*(#[trigger] all@[k]).0, *all@[k].1) == self@.take(
                        i as int,
                    ).flatten()[k],
            decreases self.entries@.len() - i,
        {
            let bucket = &self.entries[i];
            let ghost done = self@.take(i as int).flatten();
            let ghost entries = self@[i as int];
            let mut j: usize = 0;
            while j < bucket.len()
                invariant
                    j <= bucket@.len(),
                    bucket@.len() == entries.len(),
                    forall|k: int|
                        0 <= k < entries.len() ==> #[trigger] entries[k] == (bucket@[k].key, bucket@[k].value),
                    all@.len() == done.len() + j,
                    forall|k: int|
                        0 <= k < all@.len() ==> (*(#[trigger] all@[k]).0, *all@[k].1) == (done
                            + entries.take(j as int))[k],
                decreases bucket@.len() - j,
            {
                all.push((&bucket[j].key, &bucket[j].value));
                j += 1;
            }
            proof {
                assert(entries.take(j as int) =~= entries);
                assert(self@.take(i as int).push(entries) =~= self@.take(i + 1));
                self@.take(i as int).lemma_flatten_push(entries);
            }
            i += 1;
        }
        assert(self@.take(i as int) =~= self@);
        all
    }

    /// The number of entries.
    pub fn size(&self) -> (n: usize)
        requires
            self.wf(),
        ensures
            n == self@.flatten().len(),
    {
        self.size
    }

    /// The number of entries.
    pub fn len(&self) -> (n: usize)
        requires
            self.wf(),
        ensures
            n == self@.flatten().len(),
    {
        self.size
    }

    /// Whether the table holds no entry.
    pub fn is_empty(&self) -> (empty: bool)
        requires
            self.wf(),
        ensures
            empty == (self@.flatten().len() == 0),
    {
        self.size == 0
    }

    /// The number of buckets: a power of two.
    pub fn capacity(&self) -> (n: usize)
        requires
            self.wf(),
        ensures
            n == self@.len(),
            is_pow2(n as int),
    {
        self.capacity
    }

    fn buckets(count: usize) -> (entries: Vec<Vec<HashMapEntry<K, V>>>)
        ensures
            model(entries@) == empty_buckets::<K, V>(count as nat),
            model(entries@).flatten().len() == 0,
            entries@.len() == count,
    {
        let mut entries: Vec<Vec<HashMapEntry<K, V>>> = Vec::new();
        let mut i: usize = 0;
        while i < count
            invariant
                i <= count,
                entries@.len() == i,
                forall|j: int| 0 <= j < i ==> (#[trigger] entries@[j])@.len() == 0,
            decreases count - i,
        {
            entries.push(Vec::new());
            i += 1;
        }
        proof {
            assert(model(entries@) =~~= empty_buckets::<K, V>(count as nat));
            lemma_flatten_empty::<K, V>(count as nat);
        }
        entries
    }
}

/// Replacing one bucket changes the number of entries by the difference
/// of the two buckets' lengths.
pub proof fn lemma_flatten_update<A>(buckets: Seq<Seq<A>>, index: int, bucket: Seq<A>)
    requires
        0 <= index < buckets.len(),
    ensures
        buckets.update(index, bucket).flatten().len() == buckets.flatten().len()
            - buckets[index].len() + bucket.len(),
{
    let front = buckets.take(index);
    let back = buckets.skip(index + 1);
    assert(buckets =~= front + seq![buckets[index]] + back);
    assert(buckets.update(index, bucket) =~= front + seq![bucket] + back);
    vstd::seq_lib::lemma_flatten_concat(front + seq![buckets[index]], back);
    vstd::seq_lib::lemma_flatten_concat(front, seq![buckets[index]]);
    vstd::seq_lib::lemma_flatten_concat(front + seq![bucket], back);
    vstd::seq_lib::lemma_flatten_concat(front, seq![bucket]);
    seq![buckets[index]].lemma_flatten_one_element();
    seq![bucket].lemma_flatten_one_element();
}

/// Empty buckets hold no entries.
pub proof fn lemma_flatten_empty<K, V>(count: nat)
    ensures
        empty_buckets::<K, V>(count).flatten() =~= Seq::<(K, V)>::empty(),
    decreases count,
{
    if count > 0 {
        lemma_flatten_empty::<K, V>((count - 1) as nat);
        assert(empty_buckets::<K, V>(count).drop_first() =~= empty_buckets::<K, V>(
            (count - 1) as nat,
        ));
    }
}

} // verus!
