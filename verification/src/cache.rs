//! The per-run price cache: one entry per requested pair, created up
//! front, append-only during the run, aggregated once at the end.

use vstd::prelude::*;

use crate::errors::WSError;
use crate::pairs::Pair;

verus! {

/// One observed price point: the feed that produced it and the price
/// in billionths.
#[derive(Clone, Debug)]
pub struct PricesPairs {
    pub name: String,
    pub price: u128,
}

/// The derived aggregate of one entry.  It is `Pending` (meaningless)
/// until finalization has run; a pair that collected no samples gets
/// the explicit `NoData` marker, never a number.
#[derive(Clone, Copy, Debug, PartialEq, Eq, Structural)]
pub enum Aggregate {
    Pending,
    NoData,
    Mean(u128),
}

/// Per-pair accumulator: samples in arrival order plus the aggregate.
#[derive(Clone, Debug)]
pub struct PairsCache {
    pub prices: Vec<PricesPairs>,
    pub aggregate: Aggregate,
}

/// One keyed slot of the cache.
#[derive(Clone, Debug)]
pub struct CacheRecord {
    pub key: String,
    pub entry: PairsCache,
}

/// Keyed mapping from pair key to accumulator.  Keys are unique and
/// fixed at initialization; the collection loop is its only writer.
/// Callers go through the methods, which keep `wf`.
#[derive(Clone, Debug)]
pub struct CacheMap {
    pub entries: Vec<CacheRecord>,
}

/// Index of the first occurrence of `k` among `keys`, if any.
pub open spec fn key_index(keys: Seq<Seq<char>>, k: Seq<char>) -> Option<int>
    decreases keys.len(),
{
    if keys.len() == 0 {
        None
    } else if keys[0] == k {
        Some(0int)
    } else {
        match key_index(keys.skip(1), k) {
            None => None,
            Some(j) => Some(j + 1),
        }
    }
}

pub proof fn lemma_key_index(keys: Seq<Seq<char>>, k: Seq<char>)
    ensures
        match key_index(keys, k) {
            None => forall|j: int| 0 <= j < keys.len() ==> keys[j] != k,
            Some(i) => 0 <= i < keys.len() && keys[i] == k && forall|j: int|
                0 <= j < i ==> keys[j] != k,
        },
    decreases keys.len(),
{
    if keys.len() > 0 && keys[0] != k {
        let t = keys.skip(1);
        lemma_key_index(t, k);
        assert(forall|j: int| 0 <= j < t.len() ==> t[j] == keys[j + 1]);
        match key_index(t, k) {
            None => {
                assert forall|j: int| 0 <= j < keys.len() implies keys[j] != k by {
                    if j > 0 {
                        assert(keys[j] == t[j - 1]);
                    }
                }
            },
            Some(i) => {
                assert(keys[i + 1] == t[i]);
                assert forall|j: int| 0 <= j < i + 1 implies keys[j] != k by {
                    if j > 0 {
                        assert(keys[j] == t[j - 1]);
                    }
                }
            },
        }
    }
}

/// No key occurs twice.
pub open spec fn distinct_keys(ks: Seq<Seq<char>>) -> bool {
    forall|i: int, j: int| 0 <= i < j < ks.len() ==> ks[i] != ks[j]
}

/// The keys of `ks` with later duplicates removed, first occurrences
/// kept in order.
pub open spec fn dedup_keys(ks: Seq<Seq<char>>) -> Seq<Seq<char>>
    decreases ks.len(),
{
    if ks.len() == 0 {
        Seq::empty()
    } else {
        let pre = dedup_keys(ks.drop_last());
        if pre.contains(ks.last()) {
            pre
        } else {
            pre.push(ks.last())
        }
    }
}

pub proof fn lemma_dedup_distinct(ks: Seq<Seq<char>>)
    ensures
        distinct_keys(dedup_keys(ks)),
        forall|k: Seq<char>| dedup_keys(ks).contains(k) <==> ks.contains(k),
    decreases ks.len(),
{
    if ks.len() > 0 {
        lemma_dedup_distinct(ks.drop_last());
        let pre = dedup_keys(ks.drop_last());
        assert forall|k: Seq<char>| ks.contains(k) implies dedup_keys(ks).contains(k) by {
            let i = choose|i: int| 0 <= i < ks.len() && ks[i] == k;
            if i < ks.len() - 1 {
                assert(ks.drop_last()[i] == k);
                assert(ks.drop_last().contains(k));
                if !pre.contains(ks.last()) {
                    let j = choose|j: int| 0 <= j < pre.len() && pre[j] == k;
                    assert(dedup_keys(ks)[j] == k);
                }
            } else {
                if pre.contains(ks.last()) {
                } else {
                    assert(dedup_keys(ks).last() == k);
                }
            }
        }
        assert forall|k: Seq<char>| dedup_keys(ks).contains(k) implies ks.contains(k) by {
            let d = dedup_keys(ks);
            let i = choose|i: int| 0 <= i < d.len() && d[i] == k;
            if pre.contains(ks.last()) {
                assert(pre.contains(k));
                assert(ks.drop_last().contains(k));
                let j = choose|j: int| 0 <= j < ks.drop_last().len() && ks.drop_last()[j] == k;
                assert(ks[j] == k);
            } else {
                if i < d.len() - 1 {
                    assert(pre[i] == k);
                    assert(ks.drop_last().contains(k));
                    let j = choose|j: int|
                        0 <= j < ks.drop_last().len() && ks.drop_last()[j] == k;
                    assert(ks[j] == k);
                } else {
                    assert(k == ks.last());
                    assert(ks[ks.len() - 1] == k);
                }
            }
        }
        if !pre.contains(ks.last()) {
            assert forall|i: int, j: int|
                0 <= i < j < dedup_keys(ks).len() implies dedup_keys(ks)[i] != dedup_keys(
                ks,
            )[j] by {
                if j < dedup_keys(ks).len() - 1 {
                    assert(pre[i] != pre[j]);
                } else {
                    assert(pre[i] == dedup_keys(ks)[i]);
                    assert(pre.contains(pre[i]));
                }
            }
        }
    }
}

/// A list of distinct keys is its own deduplication: `init` with `N`
/// distinct pairs makes exactly `N` entries.
pub proof fn lemma_dedup_of_distinct(ks: Seq<Seq<char>>)
    requires
        distinct_keys(ks),
    ensures
        dedup_keys(ks) == ks,
    decreases ks.len(),
{
    if ks.len() > 0 {
        assert forall|i: int, j: int|
            0 <= i < j < ks.drop_last().len() implies ks.drop_last()[i] != ks.drop_last()[j] by {
            assert(ks.drop_last()[i] == ks[i]);
            assert(ks.drop_last()[j] == ks[j]);
        }
        lemma_dedup_of_distinct(ks.drop_last());
        if ks.drop_last().contains(ks.last()) {
            let i = choose|i: int|
                0 <= i < ks.drop_last().len() && ks.drop_last()[i] == ks.last();
            assert(ks[i] == ks[ks.len() - 1]);
            assert(false);
        }
        assert(ks.drop_last().push(ks.last()) =~= ks);
    }
}

/// The keys the given pairs ask for, in order.
pub open spec fn pair_keys(ps: Seq<Pair>) -> Seq<Seq<char>> {
    ps.map_values(|p: Pair| p.spec_key())
}

/// Sum of the sample prices, in billionths.
pub open spec fn sum_prices(s: Seq<PricesPairs>) -> int
    decreases s.len(),
{
    if s.len() == 0 {
        0
    } else {
        sum_prices(s.drop_last()) + s.last().price
    }
}

pub proof fn lemma_sum_prices_nonneg(s: Seq<PricesPairs>)
    ensures
        sum_prices(s) >= 0,
    decreases s.len(),
{
    if s.len() > 0 {
        lemma_sum_prices_nonneg(s.drop_last());
    }
}

pub proof fn lemma_sum_prices_prefix(s: Seq<PricesPairs>, i: int)
    requires
        0 <= i <= s.len(),
    ensures
        sum_prices(s.take(i)) <= sum_prices(s),
    decreases s.len() - i,
{
    if i < s.len() {
        lemma_sum_prices_prefix(s, i + 1);
        assert(s.take(i + 1).drop_last() =~= s.take(i));
        assert(s.take(i + 1).last() == s[i]);
    } else {
        assert(s.take(i) =~= s);
    }
}

/// What finalization owes one entry: the explicit no-data marker for
/// an empty entry, else the arithmetic mean of its sample prices.
pub open spec fn spec_aggregate(s: Seq<PricesPairs>) -> Aggregate {
    if s.len() == 0 {
        Aggregate::NoData
    } else {
        Aggregate::Mean((sum_prices(s) / (s.len() as int)) as u128)
    }
}

/// Sum of an entry's sample prices; `None` when it exceeds `u128`.
fn sum_entry(prices: &Vec<PricesPairs>) -> (r: Option<u128>)
    ensures
        match r {
            Some(v) => v == sum_prices(prices@),
            None => sum_prices(prices@) > u128::MAX,
        },
{
    let mut acc: u128 = 0;
    let mut i: usize = 0;
    while i < prices.len()
        invariant
            0 <= i <= prices.len(),
            acc == sum_prices(prices@.take(i as int)),
        decreases prices.len() - i,
    {
        proof {
            assert(prices@.take(i + 1 as int).drop_last() =~= prices@.take(i as int));
            assert(prices@.take(i + 1 as int).last() == prices@[i as int]);
        }
        match acc.checked_add(prices[i].price) {
            Some(v) => {
                acc = v;
            },
            None => {
                proof {
                    lemma_sum_prices_prefix(prices@, i + 1);
                }
                return None;
            },
        }
        i += 1;
    }
    proof {
        assert(prices@.take(prices@.len() as int) =~= prices@);
    }
    Some(acc)
}

impl CacheMap {
    pub open spec fn records(self) -> Seq<CacheRecord> {
        self.entries@
    }

    pub open spec fn spec_keys(self) -> Seq<Seq<char>> {
        self.entries@.map_values(|r: CacheRecord| r.key@)
    }

    /// Well-formed: no pair key occurs twice.
    pub open spec fn wf(self) -> bool {
        distinct_keys(self.spec_keys())
    }

    pub open spec fn spec_index_of(self, k: Seq<char>) -> Option<int> {
        key_index(self.spec_keys(), k)
    }

    /// Inserts one empty entry per requested pair, duplicates collapsed
    /// to their first occurrence, before any traffic is processed.
    pub fn init(pairs: &Vec<Pair>) -> (c: CacheMap)
        ensures
            c.wf(),
            c.spec_keys() == dedup_keys(pair_keys(pairs@)),
            forall|i: int|
                0 <= i < c.records().len() ==> (#[trigger] c.records()[i]).entry.prices.len()
                    == 0 && c.records()[i].entry.aggregate is Pending,
    {
        let mut c = CacheMap { entries: Vec::new() };
        proof {
            assert(c.spec_keys() =~= dedup_keys(pair_keys(pairs@.take(0))));
        }
        let mut i: usize = 0;
        while i < pairs.len()
            invariant
                0 <= i <= pairs.len(),
                c.wf(),
                c.spec_keys() == dedup_keys(pair_keys(pairs@.take(i as int))),
                forall|j: int|
                    0 <= j < c.records().len() ==> (#[trigger] c.records()[j]).entry.prices.len()
                        == 0 && c.records()[j].entry.aggregate is Pending,
            decreases pairs.len() - i,
        {
            let key = pairs[i].key();
            let found = c.find_index(&key);
            proof {
                let pk = pair_keys(pairs@.take(i + 1 as int));
                assert(pk.drop_last() =~= pair_keys(pairs@.take(i as int)));
                assert(pk.last() == pairs@[i as int].spec_key());
                lemma_key_index(c.spec_keys(), key@);
                match c.spec_index_of(key@) {
                    Some(_) => {
                        assert(c.spec_keys().contains(key@));
                    },
                    None => {
                        if c.spec_keys().contains(key@) {
                            let j = choose|j: int|
                                0 <= j < c.spec_keys().len() && c.spec_keys()[j] == key@;
                            assert(false);
                        }
                    },
                }
            }
            if found.is_none() {
                let ghost old_c = c;
                c.entries.push(
                    CacheRecord {
                        key,
                        entry: PairsCache { prices: Vec::new(), aggregate: Aggregate::Pending },
                    },
                );
                proof {
                    assert(c.spec_keys() =~= old_c.spec_keys().push(
                        pairs@[i as int].spec_key(),
                    ));
                    assert forall|a: int, b: int|
                        0 <= a < b < c.spec_keys().len() implies c.spec_keys()[a]
                        != c.spec_keys()[b] by {
                        if b < c.spec_keys().len() - 1 {
                            assert(old_c.spec_keys()[a] != old_c.spec_keys()[b]);
                        } else {
                            assert(c.spec_keys()[a] == old_c.spec_keys()[a]);
                        }
                    }
                }
            }
            i += 1;
        }
        proof {
            assert(pairs@.take(pairs@.len() as int) =~= pairs@);
        }
        c
    }

    /// Position of the entry for `key`, if the key was requested.
    pub fn find_index(&self, key: &String) -> (r: Option<usize>)
        ensures
            match r {
                Some(i) => self.spec_index_of(key@) == Some(i as int) && i < self.records().len(),
                None => self.spec_index_of(key@) is None,
            },
    {
        let mut i: usize = 0;
        while i < self.entries.len()
            invariant
                0 <= i <= self.entries.len(),
                forall|j: int| 0 <= j < i ==> self.spec_keys()[j] != key@,
            decreases self.entries.len() - i,
        {
            if self.entries[i].key == *key {
                proof {
                    lemma_key_index(self.spec_keys(), key@);
                    match key_index(self.spec_keys(), key@) {
                        None => {
                            assert(self.spec_keys()[i as int] == key@);
                            assert(false);
                        },
                        Some(w) => {
                            if w < i {
                                assert(self.spec_keys()[w] != key@);
                                assert(false);
                            }
                            if w > i {
                                assert(self.spec_keys()[i as int] != key@);
                                assert(false);
                            }
                        },
                    }
                }
                return Some(i);
            }
            i += 1;
        }
        proof {
            lemma_key_index(self.spec_keys(), key@);
            if let Some(w) = key_index(self.spec_keys(), key@) {
                assert(self.spec_keys()[w] != key@);
                assert(false);
            }
        }
        None
    }

    /// Appends one sample to the entry for `key`.  Returns false, with
    /// the cache untouched, when the key is outside the requested set:
    /// the caller must surface that as a data-integrity error.
    pub fn record(&mut self, key: &String, source: String, price: u128) -> (r: bool)
        requires
            old(self).wf(),
        ensures
            final(self).wf(),
            final(self).spec_keys() == old(self).spec_keys(),
            r == (old(self).spec_index_of(key@) is Some),
            match old(self).spec_index_of(key@) {
                Some(i) => {
                    &&& final(self).records().len() == old(self).records().len()
                    &&& final(self).records()[i].key == old(self).records()[i].key
                    &&& final(self).records()[i].entry.prices@ == old(
                        self,
                    ).records()[i].entry.prices@.push(PricesPairs { name: source, price })
                    &&& final(self).records()[i].entry.aggregate == old(
                        self,
                    ).records()[i].entry.aggregate
                    &&& forall|j: int|
                        0 <= j < old(self).records().len() && j != i ==> final(self).records()[j]
                            == old(self).records()[j]
                },
                None => *final(self) == *old(self),
            },
    {
        match self.find_index(key) {
            Some(i) => {
                self.entries[i].entry.prices.push(PricesPairs { name: source, price });
                proof {
                    assert(final(self).spec_keys() =~= old(self).spec_keys());
                }
                true
            },
            None => false,
        }
    }

    /// Computes every entry's aggregate: the explicit no-data marker
    /// for an empty entry, else the mean of its samples.  Fails, with
    /// the cache untouched, exactly when some entry's sum leaves the
    /// fixed-point range.
    pub fn finalize(&mut self) -> (r: Result<(), WSError>)
        requires
            old(self).wf(),
        ensures
            final(self).wf(),
            r is Ok <==> (forall|i: int|
                0 <= i < old(self).records().len() ==> sum_prices(
                    #[trigger] old(self).records()[i].entry.prices@,
                ) <= u128::MAX),
            r is Ok ==> {
                &&& final(self).records().len() == old(self).records().len()
                &&& forall|i: int|
                    0 <= i < old(self).records().len() ==> {
                        &&& (#[trigger] final(self).records()[i]).key == old(
                            self,
                        ).records()[i].key
                        &&& final(self).records()[i].entry.prices@ == old(
                            self,
                        ).records()[i].entry.prices@
                        &&& final(self).records()[i].entry.aggregate == spec_aggregate(
                            old(self).records()[i].entry.prices@,
                        )
                    }
            },
            r is Err ==> *final(self) == *old(self),
            match r {
                Err(e) => e is Overflow,
                Ok(u) => true,
            },
    {
        let n = self.entries.len();
        let mut aggs: Vec<Aggregate> = Vec::new();
        let mut i: usize = 0;
        while i < n
            invariant
                0 <= i <= n,
                *self == *old(self),
                self.wf(),
                n == self.entries.len(),
                aggs@.len() == i,
                forall|j: int|
                    0 <= j < i ==> sum_prices(#[trigger] self.records()[j].entry.prices@)
                        <= u128::MAX,
                forall|j: int|
                    0 <= j < i ==> aggs@[j] == spec_aggregate(
                        #[trigger] self.records()[j].entry.prices@,
                    ),
            decreases n - i,
        {
            let rec = &self.entries[i];
            if rec.entry.prices.len() == 0 {
                aggs.push(Aggregate::NoData);
            } else {
                match sum_entry(&rec.entry.prices) {
                    Some(sum) => {
                        let cnt = rec.entry.prices.len() as u128;
                        aggs.push(Aggregate::Mean(sum / cnt));
                    },
                    None => {
                        proof {
                            assert(sum_prices(
                                old(self).records()[i as int].entry.prices@,
                            ) > u128::MAX);
                        }
                        return Err(WSError::Overflow);
                    },
                }
            }
            i += 1;
        }
        let ghost pre = *self;
        let mut k: usize = 0;
        while k < n
            invariant
                0 <= k <= n,
                pre == *old(self),
                n == self.entries.len(),
                n == pre.records().len(),
                aggs@.len() == n,
                self.spec_keys() == pre.spec_keys(),
                forall|j: int|
                    0 <= j < n ==> aggs@[j] == spec_aggregate(
                        #[trigger] pre.records()[j].entry.prices@,
                    ),
                forall|j: int| k <= j < n ==> self.records()[j] == (#[trigger] pre.records()[j]),
                forall|j: int|
                    0 <= j < k ==> {
                        &&& self.records()[j].key == (#[trigger] pre.records()[j]).key
                        &&& self.records()[j].entry.prices@ == pre.records()[j].entry.prices@
                        &&& self.records()[j].entry.aggregate == spec_aggregate(
                            pre.records()[j].entry.prices@,
                        )
                    },
            decreases n - k,
        {
            let ghost before = self.entries@;
            self.entries[k].entry.aggregate = aggs[k];
            proof {
                assert(self.records()[k as int].key == before[k as int].key);
                assert(self.records()[k as int].entry.prices@ == before[k as int].entry.prices@);
                assert(self.records()[k as int].entry.aggregate == aggs@[k as int]);
                assert(forall|j: int| 0 <= j < n && j != k ==> self.records()[j] == before[j]);
                assert(self.spec_keys() =~= pre.spec_keys());
                assert forall|j: int| 0 <= j < k + 1 implies {
                    &&& self.records()[j].key == (#[trigger] pre.records()[j]).key
                    &&& self.records()[j].entry.prices@ == pre.records()[j].entry.prices@
                    &&& self.records()[j].entry.aggregate == spec_aggregate(
                        pre.records()[j].entry.prices@,
                    )
                } by {
                    if j < k {
                        assert(self.records()[j] == before[j]);
                    } else {
                        assert(before[k as int] == pre.records()[k as int]);
                    }
                }
            }
            k += 1;
        }
        Ok(())
    }

    pub fn len(&self) -> (r: usize)
        ensures
            r == self.records().len(),
    {
        self.entries.len()
    }

    pub fn record_at(&self, i: usize) -> (r: &CacheRecord)
        requires
            i < self.records().len(),
        ensures
            *r == self.records()[i as int],
    {
        &self.entries[i]
    }

    /// The entry for `key`, if the key was requested.
    pub fn get(&self, key: &String) -> (r: Option<&PairsCache>)
        ensures
            match r {
                Some(e) => {
                    &&& self.spec_index_of(key@) is Some
                    &&& *e == self.records()[self.spec_index_of(key@).unwrap()].entry
                },
                None => self.spec_index_of(key@) is None,
            },
    {
        match self.find_index(key) {
            Some(i) => Some(&self.entries[i].entry),
            None => None,
        }
    }
}

} // verus!
