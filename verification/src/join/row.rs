//! Rows, join keys and their hashes.

use vstd::prelude::*;

verus! {

/// One row of a batch: its join key and the payload carried with it.
///
/// The key holds the values of the key columns. A key that is absent is a
/// null key: the row pairs up with no row. Under ordinary equality a null
/// in one of the key columns makes the key null; under null-safe equality
/// nulls are values like others and the key holds them.
#[derive(Clone, Debug, PartialEq, Eq)]
pub struct Row {
    pub key: Option<Vec<Option<u64>>>,
    pub payload: String,
}

/// A row by what it holds.
pub struct RowView {
    pub key: Option<Seq<Option<u64>>>,
    pub payload: Seq<char>,
}

/// A key by the values it holds.
pub open spec fn key_view(key: Option<Vec<Option<u64>>>) -> Option<Seq<Option<u64>>> {
    match key {
        Some(values) => Some(values@),
        None => None,
    }
}

impl View for Row {
    type V = RowView;

    open spec fn view(&self) -> RowView {
        RowView { key: key_view(self.key), payload: self.payload@ }
    }
}

/// The kinds of join a probe can run. The probe side is the left side.
#[derive(Clone, Copy, Debug, PartialEq, Eq, Structural)]
pub enum JoinType {
    Inner,
    Left,
    Right,
    Full,
    Semi,
    Anti,
    Mark,
}

/// The three-valued marker a mark join attaches to a probe row.
#[derive(Clone, Copy, Debug, PartialEq, Eq, Structural)]
pub enum Marker {
    True,
    False,
    Unknown,
}

/// One row of join output. A side that is absent stands for a row of nulls.
#[derive(Clone, Debug, PartialEq, Eq)]
pub struct JoinedRow {
    pub probe: Option<Row>,
    pub build: Option<Row>,
    pub marker: Option<Marker>,
}

/// A row of join output by what it holds.
pub struct JoinedRowView {
    pub probe: Option<RowView>,
    pub build: Option<RowView>,
    pub marker: Option<Marker>,
}

/// A side of a row of output by what it holds.
pub open spec fn side_view(side: Option<Row>) -> Option<RowView> {
    match side {
        Some(row) => Some(row@),
        None => None,
    }
}

impl View for JoinedRow {
    type V = JoinedRowView;

    open spec fn view(&self) -> JoinedRowView {
        JoinedRowView {
            probe: side_view(self.probe),
            build: side_view(self.build),
            marker: self.marker,
        }
    }
}

/// Rows by what they hold.
pub open spec fn row_views(rows: Seq<Row>) -> Seq<RowView> {
    Seq::new(rows.len(), |i: int| rows[i]@)
}

/// Rows of output by what they hold.
pub open spec fn joined_views(rows: Seq<JoinedRow>) -> Seq<JoinedRowView> {
    Seq::new(rows.len(), |i: int| rows[i]@)
}

/// Whether none of the values is null.
pub open spec fn no_nulls(values: Seq<Option<u64>>) -> bool {
    forall|i: int| 0 <= i < values.len() ==> (#[trigger] values[i]) is Some
}

/// The key that the values of the key columns make: themselves, unless one
/// of them is null and nulls are not values.
pub open spec fn key_of_columns(values: Seq<Option<u64>>, null_safe: bool) -> Option<
    Seq<Option<u64>>,
> {
    if null_safe || no_nulls(values) {
        Some(values)
    } else {
        None
    }
}

/// A copy of some values.
pub fn copy_values(values: &Vec<Option<u64>>) -> (copy: Vec<Option<u64>>)
    ensures
        copy@ == values@,
{
    let mut copy: Vec<Option<u64>> = Vec::new();
    let mut i: usize = 0;
    while i < values.len()
        invariant
            i <= values.len(),
            copy@ == values@.take(i as int),
        decreases values.len() - i,
    {
        copy.push(values[i]);
        i = i + 1;
    }
    copy
}

/// Whether two lists hold the same values.
pub fn same_values(a: &Vec<Option<u64>>, b: &Vec<Option<u64>>) -> (same: bool)
    ensures
        same == (a@ == b@),
{
    if a.len() != b.len() {
        return false;
    }
    let mut i: usize = 0;
    while i < a.len()
        invariant
            i <= a.len(),
            a.len() == b.len(),
            a@.take(i as int) == b@.take(i as int),
        decreases a.len() - i,
    {
        let same: bool = match (a[i], b[i]) {
            (Some(x), Some(y)) => x == y,
            (None, None) => true,
            _ => false,
        };
        if !same {
            return false;
        }
        i = i + 1;
    }
    proof {
        assert(a@.take(a.len() as int) == a@);
        assert(b@.take(b.len() as int) == b@);
    }
    true
}

/// Whether two keys are the same key.
pub fn same_key(a: &Option<Vec<Option<u64>>>, b: &Option<Vec<Option<u64>>>) -> (same: bool)
    ensures
        same == (key_view(*a) == key_view(*b)),
{
    match (a, b) {
        (Some(x), Some(y)) => same_values(x, y),
        (None, None) => true,
        _ => false,
    }
}

impl Row {
    pub fn new(key: Option<Vec<Option<u64>>>, payload: String) -> (row: Row)
        ensures
            row.key == key,
            row.payload == payload,
    {
        Row { key, payload }
    }

    /// The row with the key that the values of its key columns make.
    pub fn from_columns(columns: Vec<Option<u64>>, null_safe: bool, payload: String) -> (row: Row)
        ensures
            row@.key == key_of_columns(columns@, null_safe),
            row@.payload == payload@,
    {
        let mut whole: bool = true;
        let mut i: usize = 0;
        while i < columns.len()
            invariant
                i <= columns.len(),
                whole == no_nulls(columns@.take(i as int)),
            decreases columns.len() - i,
        {
            proof {
                let upto = columns@.take(i as int);
                let next = columns@.take(i + 1);
                if no_nulls(next) {
                    assert forall|k: int| 0 <= k < upto.len() implies (#[trigger] upto[k]) is Some by {
                        assert(next[k] is Some);
                    }
                    assert(next[i as int] is Some);
                }
            }
            if columns[i].is_none() {
                whole = false;
            }
            i = i + 1;
        }
        proof {
            assert(columns@.take(columns.len() as int) == columns@);
        }
        if null_safe || whole {
            Row { key: Some(columns), payload }
        } else {
            Row { key: None, payload }
        }
    }

    /// A copy of this row.
    pub fn duplicate(&self) -> (row: Row)
        ensures
            row@ == self@,
    {
        Row {
            key: match &self.key {
                Some(values) => Some(copy_values(values)),
                None => None,
            },
            payload: self.payload.clone(),
        }
    }
}

impl JoinedRow {
    /// A copy of this row.
    pub fn duplicate(&self) -> (row: JoinedRow)
        ensures
            row@ == self@,
    {
        JoinedRow {
            probe: match &self.probe {
                Some(p) => Some(p.duplicate()),
                None => None,
            },
            build: match &self.build {
                Some(b) => Some(b.duplicate()),
                None => None,
            },
            marker: self.marker,
        }
    }
}

/// The hash of one value: a fixed mixing function.
pub open spec fn spec_hash_value(value: u64) -> u64 {
    let a: u64 = value ^ (value >> 33);
    let b: u64 = a.wrapping_mul(0xff51_afd7_ed55_8ccd);
    b ^ (b >> 33)
}

pub fn hash_value(value: u64) -> (hash: u64)
    ensures
        hash == spec_hash_value(value),
{
    let a: u64 = value ^ (value >> 33);
    let b: u64 = a.wrapping_mul(0xff51_afd7_ed55_8ccd);
    b ^ (b >> 33)
}

/// What a null counts as in the hash of a key.
pub const NULL_HASH: u64 = 0x9e37_79b9_7f4a_7c15;

/// The hash of a key with one more value: the hash so far, mixed with the
/// hash of the value.
pub open spec fn spec_hash_step(so_far: u64, value: Option<u64>) -> u64 {
    let own: u64 = match value {
        Some(v) => spec_hash_value(v),
        None => NULL_HASH,
    };
    spec_hash_value(so_far.wrapping_mul(31).wrapping_add(own))
}

/// The join hash of a key: a fixed function of its values, so that equal
/// keys hash alike.
pub open spec fn spec_hash_key(values: Seq<Option<u64>>) -> u64
    decreases values.len(),
{
    if values.len() == 0 {
        0
    } else {
        spec_hash_step(spec_hash_key(values.drop_last()), values.last())
    }
}

pub fn hash_key(values: &Vec<Option<u64>>) -> (hash: u64)
    ensures
        hash == spec_hash_key(values@),
{
    let mut hash: u64 = 0;
    let mut i: usize = 0;
    while i < values.len()
        invariant
            i <= values.len(),
            hash == spec_hash_key(values@.take(i as int)),
        decreases values.len() - i,
    {
        proof {
            assert(values@.take(i + 1).drop_last() =~= values@.take(i as int));
        }
        let own: u64 = match values[i] {
            Some(v) => hash_value(v),
            None => NULL_HASH,
        };
        hash = hash_value(hash.wrapping_mul(31).wrapping_add(own));
        i = i + 1;
    }
    proof {
        assert(values@.take(values.len() as int) == values@);
    }
    hash
}

/// The slot, out of `slots`, that a key falls into. A null key falls into
/// slot 0.
pub open spec fn spec_slot_of(key: Option<Seq<Option<u64>>>, slots: usize) -> usize
    recommends
        slots > 0,
{
    match key {
        Some(values) => (spec_hash_key(values) % (slots as u64)) as usize,
        None => 0,
    }
}

pub fn slot_of(key: &Option<Vec<Option<u64>>>, slots: usize) -> (slot: usize)
    requires
        slots > 0,
    ensures
        slot == spec_slot_of(key_view(*key), slots),
        slot < slots,
{
    match key {
        Some(values) => {
            let h: u64 = hash_key(values);
            (h % (slots as u64)) as usize
        },
        None => 0,
    }
}

} // verus!
