//! The hash table over the build side: from a key's slot to the rows in it.

use vstd::prelude::*;
use crate::join::row::{key_view, row_views, same_values, slot_of, Row};
use crate::join::spec::{
    bucket_rows, build_matches, lemma_bucket_rows_in_range, lemma_bucket_scan, matches_in,
};

verus! {

/// A chained hash table. Slot `s` lists, in ascending order, the build rows
/// whose key hashes to `s`. It is built once and only read afterwards.
pub struct JoinHashTable {
    buckets: Vec<Vec<usize>>,
}

impl JoinHashTable {
    /// The table holds exactly the rows of `build` that have a key, each in
    /// the slot of its key.
    pub closed spec fn represents(&self, build: Seq<Row>) -> bool {
        &&& self.buckets.len() > 0
        &&& forall|s: int|
            0 <= s < self.buckets.len() ==> (#[trigger] self.buckets[s])@ == bucket_rows(
                row_views(build),
                self.buckets.len(),
                s as usize,
            )
    }

    pub closed spec fn slots(&self) -> usize {
        self.buckets.len()
    }

    /// Builds the table over `rows` with `slots` slots.
    pub fn build(rows: &Vec<Row>, slots: usize) -> (table: JoinHashTable)
        requires
            slots > 0,
        ensures
            table.represents(rows@),
            table.slots() == slots,
    {
        let mut buckets: Vec<Vec<usize>> = Vec::new();
        let mut s: usize = 0;
        while s < slots
            invariant
                s <= slots,
                buckets.len() == s,
                forall|t: int| 0 <= t < s ==> (#[trigger] buckets[t])@ == Seq::<usize>::empty(),
            decreases slots - s,
        {
            buckets.push(Vec::new());
            s = s + 1;
        }
        let ghost views = row_views(rows@);
        let mut i: usize = 0;
        while i < rows.len()
            invariant
                slots > 0,
                i <= rows.len(),
                views == row_views(rows@),
                buckets.len() == slots,
                forall|t: int|
                    0 <= t < slots ==> (#[trigger] buckets[t])@ == bucket_rows(
                        views.take(i as int),
                        slots,
                        t as usize,
                    ),
            decreases rows.len() - i,
        {
            proof {
                assert(views.take(i + 1).take(i as int) == views.take(i as int));
            }
            if rows[i].key.is_some() {
                let slot: usize = slot_of(&rows[i].key, slots);
                buckets[slot].push(i);
            }
            i = i + 1;
        }
        proof {
            assert(views.take(rows.len() as int) == views);
        }
        JoinHashTable { buckets }
    }

    /// The build rows that carry `key`, ascending. A null key finds nothing.
    pub fn lookup(&self, rows: &Vec<Row>, key: &Option<Vec<Option<u64>>>) -> (found: Vec<usize>)
        requires
            self.represents(rows@),
        ensures
            found@ == build_matches(row_views(rows@), key_view(*key)),
    {
        let mut found: Vec<usize> = Vec::new();
        let ghost views = row_views(rows@);
        match key {
            None => {
                proof {
                    lemma_null_matches_nothing(views);
                }
            },
            Some(k) => {
                let slot: usize = slot_of(key, self.buckets.len());
                let bucket: &Vec<usize> = &self.buckets[slot];
                proof {
                    assert(rows@.len() == rows.len());
                    lemma_bucket_rows_in_range(views, self.buckets.len(), slot);
                    lemma_bucket_scan(views, self.buckets.len(), k@);
                }
                let mut c: usize = 0;
                while c < bucket.len()
                    invariant
                        c <= bucket.len(),
                        views == row_views(rows@),
                        forall|d: int| 0 <= d < bucket.len() ==> (#[trigger] bucket@[d]) < rows.len(),
                        found@ == matches_in(bucket@.take(c as int), views, k@),
                    decreases bucket.len() - c,
                {
                    proof {
                        assert(bucket@.take(c + 1).take(c as int) == bucket@.take(c as int));
                    }
                    let j: usize = bucket[c];
                    let same: bool = match &rows[j].key {
                        Some(values) => same_values(values, k),
                        None => false,
                    };
                    if same {
                        found.push(j);
                    }
                    c = c + 1;
                }
                proof {
                    assert(bucket@.take(bucket.len() as int) == bucket@);
                }
            },
        }
        found
    }
}

/// A null key matches no build row.
pub proof fn lemma_null_matches_nothing(build: Seq<crate::join::row::RowView>)
    ensures
        build_matches(build, None) == Seq::<usize>::empty(),
    decreases build.len(),
{
    if build.len() > 0 {
        lemma_null_matches_nothing(build.take(build.len() - 1));
    }
}

} // verus!
