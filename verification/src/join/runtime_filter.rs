//! Runtime filters: a compact picture of the keys of the build side, taken
//! while the build runs and handed to the scan of the probe side, which
//! drops the rows that cannot find a match.

use vstd::prelude::*;
use crate::join::row::{hash_value, spec_hash_value};
use crate::join::visited::VisitedBitmap;

verus! {

/// The number of bits in the membership part of a filter.
pub const FILTER_BITS: usize = 4096;

/// Why a filter could not be used.
#[derive(Clone, Copy, Debug, PartialEq, Eq, Structural)]
pub enum FilterError {
    /// The filter is not published yet.
    NotReady,
    /// The filter is published: it takes no more keys, and is not published
    /// again.
    AlreadyPublished,
    /// No filter has this id.
    UnknownFilter,
}

/// The bit of a key in the membership part.
pub open spec fn filter_bit(key: u64) -> int {
    (spec_hash_value(key) % (FILTER_BITS as u64)) as int
}

/// The picture of a set of keys: the range they lie in, and a bit for each
/// key's hash. It may admit keys that were never collected; it never
/// rejects one that was. A filter that has collected more keys than its
/// limit gives up and admits everything.
pub struct RuntimeFilter {
    ready: bool,
    pass_all: bool,
    any: bool,
    min: u64,
    max: u64,
    count: usize,
    limit: usize,
    bits: VisitedBitmap,
    keys: Ghost<Set<u64>>,
}

impl RuntimeFilter {
    /// The keys collected so far.
    pub closed spec fn keys(&self) -> Set<u64> {
        self.keys@
    }

    /// Whether the filter is published.
    pub closed spec fn is_ready(&self) -> bool {
        self.ready
    }

    /// Whether the filter has given up and admits everything.
    pub closed spec fn passes_all(&self) -> bool {
        self.pass_all
    }

    /// The range the collected keys lie in, if any key was collected.
    pub closed spec fn range(&self) -> Option<(u64, u64)> {
        if self.any {
            Some((self.min, self.max))
        } else {
            None
        }
    }

    /// The membership bits.
    pub closed spec fn membership(&self) -> Seq<bool> {
        self.bits.bits()
    }

    /// The number of keys a filter collects before it gives up.
    pub closed spec fn limit(&self) -> usize {
        self.limit
    }

    /// The number of keys taken in so far, each counted as often as it
    /// came. It stops at the limit.
    pub closed spec fn taken(&self) -> usize {
        self.count
    }

    /// Whether a filter that has taken in `taken` keys gives up over `more`
    /// keys more: with them it would hold more than its limit.
    pub open spec fn over_limit(taken: usize, more: nat, limit: usize) -> bool {
        taken + more > limit
    }

    /// The number of keys taken in after `more` keys more.
    pub open spec fn taken_after(taken: usize, more: nat, limit: usize) -> usize {
        if taken + more > limit {
            limit
        } else {
            (taken + more) as usize
        }
    }

    /// Whether two filters have collected the same and admit the same.
    pub open spec fn same_content(&self, other: RuntimeFilter) -> bool {
        &&& self.keys() == other.keys()
        &&& self.passes_all() == other.passes_all()
        &&& self.range() == other.range()
        &&& self.membership() == other.membership()
        &&& self.limit() == other.limit()
        &&& self.taken() == other.taken()
    }

    /// Whether the filter lets a probe key through. A null key matches
    /// nothing, so only a filter that admits everything lets it through.
    pub open spec fn admits(&self, key: Option<u64>) -> bool {
        self.passes_all() || match key {
            Some(k) => match self.range() {
                Some((min, max)) => min <= k <= max && self.membership()[filter_bit(k)],
                None => false,
            },
            None => false,
        }
    }

    /// The filter admits every key it has collected.
    pub closed spec fn well_formed(&self) -> bool {
        &&& self.bits.well_formed()
        &&& self.bits.rows() == FILTER_BITS
        &&& self.count <= self.limit
        &&& self.any ==> self.min <= self.max
        &&& forall|k: u64| #[trigger] self.keys@.contains(k) ==> self.admits(Some(k))
    }

    /// A filter that has collected nothing. It gives up after `limit` keys.
    pub fn new(limit: usize) -> (filter: RuntimeFilter)
        ensures
            filter.well_formed(),
            !filter.is_ready(),
            !filter.passes_all(),
            filter.range() is None,
            filter.keys() == Set::<u64>::empty(),
            filter.limit() == limit,
            filter.taken() == 0,
    {
        RuntimeFilter {
            ready: false,
            pass_all: false,
            any: false,
            min: 0,
            max: 0,
            count: 0,
            limit,
            bits: VisitedBitmap::new(FILTER_BITS),
            keys: Ghost(Set::empty()),
        }
    }

    fn collect_key(&mut self, k: u64)
        requires
            old(self).well_formed(),
        ensures
            final(self).well_formed(),
            final(self).is_ready() == old(self).is_ready(),
            final(self).limit() == old(self).limit(),
            final(self).keys() == old(self).keys().insert(k),
            final(self).passes_all() == (old(self).passes_all() || RuntimeFilter::over_limit(
                old(self).taken(),
                1,
                old(self).limit(),
            )),
            final(self).taken() == (if old(self).passes_all() {
                old(self).taken()
            } else {
                RuntimeFilter::taken_after(old(self).taken(), 1, old(self).limit())
            }),
    {
        let ghost before = *self;
        self.keys = Ghost(self.keys@.insert(k));
        if self.pass_all {
            return ;
        }
        if self.count >= self.limit {
            self.pass_all = true;
            return ;
        }
        self.count = self.count + 1;
        if !self.any {
            self.any = true;
            self.min = k;
            self.max = k;
        } else {
            if k < self.min {
                self.min = k;
            }
            if k > self.max {
                self.max = k;
            }
        }
        let bit: usize = (hash_value(k) % (FILTER_BITS as u64)) as usize;
        self.bits.claim(bit);
        proof {
            before.bits.lemma_bits_len();
            self.bits.lemma_bits_len();
            assert forall|j: u64| #[trigger] self.keys@.contains(j) implies self.admits(Some(j)) by {
                if j != k {
                    assert(before.keys@.contains(j));
                    assert(before.admits(Some(j)));
                }
            }
        }
    }

    /// Takes in the keys of one column of build rows. Null keys are passed
    /// over: they match nothing. A filter that would hold more keys than its
    /// limit gives up: from then on it admits everything.
    pub fn collect(&mut self, key_column: &Vec<Option<u64>>) -> (res: Result<(), FilterError>)
        requires
            old(self).well_formed(),
        ensures
            final(self).well_formed(),
            final(self).is_ready() == old(self).is_ready(),
            final(self).limit() == old(self).limit(),
            old(self).is_ready() ==> res == Err::<(), FilterError>(FilterError::AlreadyPublished)
                && final(self).keys() == old(self).keys() && final(self).passes_all()
                == old(self).passes_all() && final(self).taken() == old(self).taken(),
            !old(self).is_ready() ==> res == Ok::<(), FilterError>(())
                && final(self).keys() == old(self).keys().union(column_keys(key_column@)),
            !old(self).is_ready() ==> final(self).passes_all() == (old(self).passes_all()
                || RuntimeFilter::over_limit(
                old(self).taken(),
                key_count(key_column@),
                old(self).limit(),
            )),
            !old(self).is_ready() ==> final(self).taken() == (if old(self).passes_all() {
                old(self).taken()
            } else {
                RuntimeFilter::taken_after(
                    old(self).taken(),
                    key_count(key_column@),
                    old(self).limit(),
                )
            }),
    {
        if self.ready {
            return Err(FilterError::AlreadyPublished);
        }
        let mut i: usize = 0;
        proof {
            assert(self.keys().union(column_keys(key_column@.take(0))) =~= self.keys());
            assert(key_column@.take(0) =~= Seq::<Option<u64>>::empty());
        }
        while i < key_column.len()
            invariant
                i <= key_column.len(),
                self.well_formed(),
                !self.is_ready(),
                self.limit() == old(self).limit(),
                self.keys() == old(self).keys().union(column_keys(key_column@.take(i as int))),
                old(self).taken() <= old(self).limit(),
                self.passes_all() == (old(self).passes_all() || RuntimeFilter::over_limit(
                    old(self).taken(),
                    key_count(key_column@.take(i as int)),
                    old(self).limit(),
                )),
                self.taken() == (if old(self).passes_all() {
                    old(self).taken()
                } else {
                    RuntimeFilter::taken_after(
                        old(self).taken(),
                        key_count(key_column@.take(i as int)),
                        old(self).limit(),
                    )
                }),
            decreases key_column.len() - i,
        {
            proof {
                assert(key_column@.take(i + 1).drop_last() =~= key_column@.take(i as int));
                assert(key_column@.take(i + 1).last() == key_column@[i as int]);
            }
            match key_column[i] {
                Some(k) => {
                    self.collect_key(k);
                },
                None => {},
            }
            proof {
                let upto = key_column@.take(i as int);
                let next = key_column@.take(i + 1);
                assert(next =~= upto.push(key_column@[i as int]));
                assert(column_keys(next) =~= (match key_column@[i as int] {
                    Some(k) => column_keys(upto).insert(k),
                    None => column_keys(upto),
                })) by {
                    assert forall|k: u64| column_keys(next).contains(k) == (match key_column@[i as int] {
                        Some(kk) => column_keys(upto).insert(kk),
                        None => column_keys(upto),
                    }).contains(k) by {
                        if column_keys(upto).contains(k) {
                            let t = choose|t: int| 0 <= t < upto.len() && upto[t] == Some(k);
                            assert(next[t] == Some(k));
                        }
                        if key_column@[i as int] == Some(k) {
                            assert(next[i as int] == Some(k));
                        }
                        if column_keys(next).contains(k) {
                            let t = choose|t: int| 0 <= t < next.len() && next[t] == Some(k);
                            if t < i {
                                assert(upto[t] == Some(k));
                            }
                        }
                    }
                }
                assert(self.keys() =~= old(self).keys().union(column_keys(next)));
            }
            i = i + 1;
        }
        proof {
            assert(key_column@.take(key_column.len() as int) == key_column@);
        }
        Ok(())
    }

    /// Publishes the filter, once the build is done. From then on it is only
    /// read.
    pub fn publish(&mut self) -> (res: Result<(), FilterError>)
        requires
            old(self).well_formed(),
        ensures
            final(self).well_formed(),
            final(self).is_ready(),
            final(self).keys() == old(self).keys(),
            final(self).passes_all() == old(self).passes_all(),
            final(self).range() == old(self).range(),
            final(self).membership() == old(self).membership(),
            final(self).limit() == old(self).limit(),
            final(self).taken() == old(self).taken(),
            res == (if old(self).is_ready() {
                Err::<(), FilterError>(FilterError::AlreadyPublished)
            } else {
                Ok::<(), FilterError>(())
            }),
    {
        if self.ready {
            return Err(FilterError::AlreadyPublished);
        }
        self.ready = true;
        Ok(())
    }

    /// Says of each probe key whether the row can still find a match. A row
    /// whose key is among the collected keys is never excluded.
    pub fn evaluate(&self, probe_key_column: &Vec<Option<u64>>) -> (res: Result<
        Vec<bool>,
        FilterError,
    >)
        requires
            self.well_formed(),
        ensures
            !self.is_ready() ==> res == Err::<Vec<bool>, FilterError>(FilterError::NotReady),
            self.is_ready() ==> (res matches Ok(mask) && mask.len() == probe_key_column.len() && (
            forall|i: int|
                0 <= i < mask.len() ==> #[trigger] mask[i] == self.admits(probe_key_column[i])) && (
            forall|i: int|
                0 <= i < mask.len() && (probe_key_column[i] matches Some(k) && self.keys().contains(
                    k,
                )) ==> #[trigger] mask[i])),
    {
        if !self.ready {
            return Err(FilterError::NotReady);
        }
        let mut mask: Vec<bool> = Vec::new();
        let mut i: usize = 0;
        proof {
            self.bits.lemma_bits_len();
        }
        while i < probe_key_column.len()
            invariant
                i <= probe_key_column.len(),
                self.well_formed(),
                self.membership().len() == FILTER_BITS,
                mask.len() == i,
                forall|t: int| 0 <= t < i ==> #[trigger] mask[t] == self.admits(probe_key_column[t]),
            decreases probe_key_column.len() - i,
        {
            let pass: bool = if self.pass_all {
                true
            } else {
                match probe_key_column[i] {
                    Some(k) => {
                        if self.any && self.min <= k && k <= self.max {
                            let bit: usize = (hash_value(k) % (FILTER_BITS as u64)) as usize;
                            self.bits.is_set(bit)
                        } else {
                            false
                        }
                    },
                    None => false,
                }
            };
            mask.push(pass);
            i = i + 1;
        }
        Ok(mask)
    }
}

/// The number of keys in a column: of its entries that are not null.
pub open spec fn key_count(column: Seq<Option<u64>>) -> nat
    decreases column.len(),
{
    if column.len() == 0 {
        0
    } else {
        key_count(column.drop_last()) + (if column.last() is Some {
            1nat
        } else {
            0nat
        })
    }
}

/// The keys of a column: its entries that are not null.
pub open spec fn column_keys(column: Seq<Option<u64>>) -> Set<u64> {
    Set::new(|k: u64| exists|i: int| 0 <= i < column.len() && #[trigger] column[i] == Some(k))
}

/// A filter never rejects a key of the build side: whatever it has
/// collected, it admits.
pub proof fn law_no_false_negatives(filter: RuntimeFilter, key: u64)
    requires
        filter.well_formed(),
        filter.keys().contains(key),
    ensures
        filter.admits(Some(key)),
{
}

/// The number of keys after which a filter gives up, where the plan names
/// no other.
pub const DEFAULT_FILTER_LIMIT: usize = 65536;

/// The filters of a join, each under its id, while they are built and once
/// they are published.
pub struct RuntimeFilterState {
    ids: Vec<usize>,
    filters: Vec<RuntimeFilter>,
}

impl RuntimeFilterState {
    /// The ids of the filters, in the order they were given.
    pub closed spec fn ids(&self) -> Seq<usize> {
        self.ids@
    }

    /// The filters, each at the place of its id.
    pub closed spec fn filters(&self) -> Seq<RuntimeFilter> {
        self.filters@
    }

    pub open spec fn well_formed(&self) -> bool {
        &&& self.filters().len() == self.ids().len()
        &&& forall|i: int| 0 <= i < self.filters().len() ==> (#[trigger] self.filters()[i]).well_formed()
    }

    /// The place of the first filter with this id, if there is one.
    pub open spec fn place_of(&self, id: usize) -> Option<int> {
        if exists|i: int| 0 <= i < self.ids().len() && self.ids()[i] == id {
            Some(
                choose|i: int|
                    0 <= i < self.ids().len() && self.ids()[i] == id && forall|j: int|
                        0 <= j < i ==> self.ids()[j] != id,
            )
        } else {
            None
        }
    }

    /// One empty filter for each id.
    pub fn new(ids: Vec<usize>, limit: usize) -> (state: RuntimeFilterState)
        ensures
            state.well_formed(),
            state.ids() == ids@,
            forall|i: int|
                0 <= i < ids.len() ==> !(#[trigger] state.filters()[i]).is_ready()
                    && !state.filters()[i].passes_all() && state.filters()[i].taken() == 0
                    && state.filters()[i].keys() == Set::<u64>::empty() && state.filters()[i].limit()
                    == limit,
    {
        let mut filters: Vec<RuntimeFilter> = Vec::new();
        let mut i: usize = 0;
        while i < ids.len()
            invariant
                i <= ids.len(),
                filters.len() == i,
                forall|t: int|
                    0 <= t < i ==> (#[trigger] filters[t]).well_formed() && !filters[t].is_ready()
                        && !filters[t].passes_all() && filters[t].taken() == 0
                        && filters[t].keys() == Set::<u64>::empty() && filters[t].limit() == limit,
            decreases ids.len() - i,
        {
            filters.push(RuntimeFilter::new(limit));
            i = i + 1;
        }
        RuntimeFilterState { ids, filters }
    }

    fn find(&self, id: usize) -> (place: Option<usize>)
        requires
            self.well_formed(),
        ensures
            match place {
                Some(i) => self.place_of(id) == Some(i as int) && i < self.filters().len(),
                None => self.place_of(id) is None,
            },
    {
        let mut i: usize = 0;
        while i < self.ids.len()
            invariant
                i <= self.ids.len(),
                self.well_formed(),
                forall|j: int| 0 <= j < i ==> self.ids()[j] != id,
            decreases self.ids.len() - i,
        {
            if self.ids[i] == id {
                proof {
                    let found = choose|k: int|
                        0 <= k < self.ids().len() && self.ids()[k] == id && forall|j: int|
                            0 <= j < k ==> self.ids()[j] != id;
                    assert(found == i) by {
                        if found < i {
                            assert(self.ids()[found] != id);
                        }
                        if found > i {
                            assert(self.ids()[i as int] != id);
                        }
                    }
                }
                return Some(i);
            }
            i = i + 1;
        }
        None
    }

    /// Takes in build keys for the filter `id`.
    pub fn collect(&mut self, id: usize, key_column: &Vec<Option<u64>>) -> (res: Result<
        (),
        FilterError,
    >)
        requires
            old(self).well_formed(),
        ensures
            final(self).well_formed(),
            final(self).ids() == old(self).ids(),
            match old(self).place_of(id) {
                None => res == Err::<(), FilterError>(FilterError::UnknownFilter)
                    && final(self).filters() == old(self).filters(),
                Some(i) => {
                    &&& final(self).filters().len() == old(self).filters().len()
                    &&& forall|j: int|
                        0 <= j < old(self).filters().len() && j != i ==> final(self).filters()[j]
                            == old(self).filters()[j]
                    &&& final(self).filters()[i].is_ready() == old(self).filters()[i].is_ready()
                    &&& final(self).filters()[i].limit() == old(self).filters()[i].limit()
                    &&& if old(self).filters()[i].is_ready() {
                        res == Err::<(), FilterError>(FilterError::AlreadyPublished)
                            && final(self).filters()[i].keys() == old(self).filters()[i].keys()
                            && final(self).filters()[i].passes_all() == old(self).filters()[i].passes_all()
                    } else {
                        res == Ok::<(), FilterError>(())
                            && final(self).filters()[i].keys()
                            == old(self).filters()[i].keys().union(column_keys(key_column@))
                            && final(self).filters()[i].passes_all() == (
                        old(self).filters()[i].passes_all() || RuntimeFilter::over_limit(
                            old(self).filters()[i].taken(),
                            key_count(key_column@),
                            old(self).filters()[i].limit(),
                        ))
                    }
                },
            },
    {
        match self.find(id) {
            None => Err(FilterError::UnknownFilter),
            Some(i) => {
                let res = self.filters[i].collect(key_column);
                res
            },
        }
    }

    /// Publishes every filter. A state is published once; what its filters
    /// have collected, and whether they have given up, stays as it is.
    pub fn publish(&mut self) -> (res: Result<(), FilterError>)
        requires
            old(self).well_formed(),
        ensures
            final(self).well_formed(),
            final(self).ids() == old(self).ids(),
            final(self).filters().len() == old(self).filters().len(),
            forall|i: int|
                0 <= i < old(self).filters().len() ==> (#[trigger] final(self).filters()[i]).is_ready()
                    && final(self).filters()[i].same_content(old(self).filters()[i]),
            res == (if exists|i: int|
                0 <= i < old(self).filters().len() && (#[trigger] old(self).filters()[i]).is_ready() {
                Err::<(), FilterError>(FilterError::AlreadyPublished)
            } else {
                Ok::<(), FilterError>(())
            }),
    {
        let mut seen_ready: bool = false;
        let mut i: usize = 0;
        while i < self.filters.len()
            invariant
                i <= self.filters.len(),
                self.well_formed(),
                self.ids() == old(self).ids(),
                self.filters().len() == old(self).filters().len(),
                forall|t: int|
                    0 <= t < i ==> (#[trigger] self.filters()[t]).is_ready()
                        && self.filters()[t].same_content(old(self).filters()[t]),
                forall|t: int|
                    i <= t < self.filters().len() ==> (#[trigger] self.filters()[t])
                        == old(self).filters()[t],
                seen_ready == (exists|t: int|
                    0 <= t < i && (#[trigger] old(self).filters()[t]).is_ready()),
            decreases self.filters.len() - i,
        {
            let ghost before = self.filters@;
            let res = self.filters[i].publish();
            if res.is_err() {
                seen_ready = true;
            }
            proof {
                assert(old(self).filters()[i as int] == before[i as int]);
                if seen_ready && res.is_ok() {
                    let t = choose|t: int|
                        0 <= t < i && (#[trigger] old(self).filters()[t]).is_ready();
                    assert(0 <= t < i + 1 && old(self).filters()[t].is_ready());
                }
                if exists|t: int| 0 <= t < i + 1 && (#[trigger] old(self).filters()[t]).is_ready() {
                    let t = choose|t: int|
                        0 <= t < i + 1 && (#[trigger] old(self).filters()[t]).is_ready();
                    if t < i {
                        assert(old(self).filters()[t].is_ready());
                    }
                }
            }
            i = i + 1;
        }
        if seen_ready {
            Err(FilterError::AlreadyPublished)
        } else {
            Ok(())
        }
    }

    /// Says of each probe key whether the filter `id` lets the row through.
    pub fn evaluate(&self, id: usize, probe_key_column: &Vec<Option<u64>>) -> (res: Result<
        Vec<bool>,
        FilterError,
    >)
        requires
            self.well_formed(),
        ensures
            match self.place_of(id) {
                None => res == Err::<Vec<bool>, FilterError>(FilterError::UnknownFilter),
                Some(p) => {
                    let filter = self.filters()[p];
                    &&& !filter.is_ready() ==> res == Err::<Vec<bool>, FilterError>(
                        FilterError::NotReady,
                    )
                    &&& filter.is_ready() ==> (res matches Ok(mask) && mask.len()
                        == probe_key_column.len() && (forall|i: int|
                        0 <= i < mask.len() ==> #[trigger] mask[i] == filter.admits(
                            probe_key_column[i],
                        )) && (forall|i: int|
                        0 <= i < mask.len() && (probe_key_column[i] matches Some(k)
                            && filter.keys().contains(k)) ==> #[trigger] mask[i]))
                },
            },
    {
        match self.find(id) {
            None => Err(FilterError::UnknownFilter),
            Some(i) => self.filters[i].evaluate(probe_key_column),
        }
    }
}

} // verus!
