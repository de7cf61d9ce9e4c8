//! How a batch of rows is written to the store that holds spilled
//! partitions, and read back: a count of rows, then row after row, each as
//! its key, value by value, the length of its payload and the payload.

use vstd::prelude::*;
use vstd::bytes::{
    lemma_auto_spec_u64_to_from_le_bytes, spec_u64_from_le_bytes, spec_u64_to_le_bytes,
    u64_from_le_bytes, u64_to_le_bytes,
};
use vstd::slice::{slice_subrange, slice_to_vec};
use vstd::utf8::{decode_utf8, encode_utf8, valid_utf8};
use crate::base::string_from_utf8;
use crate::join::row::{key_view, row_views, Row, RowView};

verus! {

/// The bytes of a value: a mark and the value.
pub const VALUE_BYTES: usize = 9;

/// A value as bytes: one byte that says whether it is null, and eight bytes
/// of the value, or of zero. Numbers are written low byte first.
pub open spec fn value_frame(value: Option<u64>) -> Seq<u8> {
    match value {
        Some(v) => seq![1u8] + spec_u64_to_le_bytes(v),
        None => seq![0u8] + spec_u64_to_le_bytes(0),
    }
}

/// Values as bytes, one after the other.
pub open spec fn values_frame(values: Seq<Option<u64>>) -> Seq<u8>
    decreases values.len(),
{
    if values.len() == 0 {
        Seq::empty()
    } else {
        value_frame(values[0]) + values_frame(values.drop_first())
    }
}

/// A key as bytes: whether there is one, then the number of its values and
/// the values. A null key is written as no key with no values.
pub open spec fn key_frame(key: Option<Seq<Option<u64>>>) -> Seq<u8> {
    match key {
        Some(values) => seq![1u8] + spec_u64_to_le_bytes(values.len() as u64) + values_frame(
            values,
        ),
        None => seq![0u8] + spec_u64_to_le_bytes(0),
    }
}

/// A row as bytes: its key, the length of its payload, and the payload.
pub open spec fn row_frame(row: RowView) -> Seq<u8> {
    key_frame(row.key) + spec_u64_to_le_bytes(encode_utf8(row.payload).len() as u64) + encode_utf8(
        row.payload,
    )
}

/// Rows as bytes, one after the other.
pub open spec fn rows_frame(rows: Seq<RowView>) -> Seq<u8>
    decreases rows.len(),
{
    if rows.len() == 0 {
        Seq::empty()
    } else {
        row_frame(rows[0]) + rows_frame(rows.drop_first())
    }
}

/// A batch as bytes: the number of its rows, then the rows.
pub open spec fn batch_frame(rows: Seq<RowView>) -> Seq<u8> {
    spec_u64_to_le_bytes(rows.len() as u64) + rows_frame(rows)
}

/// The mark and the number written at a place, and where the next thing
/// begins; nothing where the bytes end before, or where the mark is none.
pub open spec fn read_marked(bytes: Seq<u8>, at: int) -> Option<(bool, u64)> {
    if at < 0 || at + VALUE_BYTES > bytes.len() || bytes[at] > 1 {
        None
    } else {
        Some((bytes[at] == 1, spec_u64_from_le_bytes(bytes.subrange(at + 1, at + 9))))
    }
}

/// The value written at a place. A null is written with the number zero.
pub open spec fn read_value(bytes: Seq<u8>, at: int) -> Option<Option<u64>> {
    match read_marked(bytes, at) {
        Some((true, v)) => Some(Some(v)),
        Some((false, v)) => if v == 0 {
            Some(None)
        } else {
            None
        },
        None => None,
    }
}

/// So many values written from a place on.
pub open spec fn read_values(bytes: Seq<u8>, at: int, count: nat) -> Option<Seq<Option<u64>>>
    decreases count,
{
    if count == 0 {
        Some(Seq::empty())
    } else {
        match read_value(bytes, at) {
            None => None,
            Some(value) => match read_values(bytes, at + VALUE_BYTES, (count - 1) as nat) {
                None => None,
                Some(rest) => Some(seq![value] + rest),
            },
        }
    }
}

/// The key written at a place, and where the next thing begins.
pub open spec fn read_key(bytes: Seq<u8>, at: int) -> Option<(Option<Seq<Option<u64>>>, int)> {
    match read_marked(bytes, at) {
        Some((true, count)) => match read_values(bytes, at + VALUE_BYTES, count as nat) {
            Some(values) => Some((Some(values), at + VALUE_BYTES + VALUE_BYTES * count)),
            None => None,
        },
        Some((false, count)) => if count == 0 {
            Some((None, at + VALUE_BYTES))
        } else {
            None
        },
        None => None,
    }
}

/// The row written at a place, and where the next begins; nothing where
/// the bytes there are no row.
pub open spec fn read_row(bytes: Seq<u8>, at: int) -> Option<(RowView, int)> {
    match read_key(bytes, at) {
        None => None,
        Some((key, next)) => if next + 8 > bytes.len() {
            None
        } else {
            let len = spec_u64_from_le_bytes(bytes.subrange(next, next + 8));
            if next + 8 + len > bytes.len() {
                None
            } else {
                let payload = bytes.subrange(next + 8, next + 8 + len);
                if valid_utf8(payload) {
                    Some((RowView { key, payload: decode_utf8(payload) }, next + 8 + len))
                } else {
                    None
                }
            }
        },
    }
}

/// So many rows written from a place on, and where they end.
pub open spec fn read_rows(bytes: Seq<u8>, at: int, count: nat) -> Option<(Seq<RowView>, int)>
    decreases count,
{
    if count == 0 {
        Some((Seq::empty(), at))
    } else {
        match read_row(bytes, at) {
            None => None,
            Some((row, next)) => match read_rows(bytes, next, (count - 1) as nat) {
                None => None,
                Some((rest, end)) => Some((seq![row] + rest, end)),
            },
        }
    }
}

/// The batch that some bytes hold: they must hold a count, that many rows,
/// and nothing more.
pub open spec fn read_batch(bytes: Seq<u8>) -> Option<Seq<RowView>> {
    if bytes.len() < 8 {
        None
    } else {
        let count = spec_u64_from_le_bytes(bytes.subrange(0, 8));
        match read_rows(bytes, 8, count as nat) {
            Some((rows, end)) => if end == bytes.len() {
                Some(rows)
            } else {
                None
            },
            None => None,
        }
    }
}

/// The batch written at a place, and where it ends.
pub open spec fn read_batch_at(bytes: Seq<u8>, at: int) -> Option<(Seq<RowView>, int)> {
    if at < 0 || at + 8 > bytes.len() {
        None
    } else {
        read_rows(bytes, at + 8, spec_u64_from_le_bytes(bytes.subrange(at, at + 8)) as nat)
    }
}

/// The rows of a partition: those of the batches written one after the
/// other from a place on, up to the last byte.
pub open spec fn read_partition(bytes: Seq<u8>, at: int) -> Option<Seq<RowView>>
    decreases bytes.len() - at,
{
    if at >= bytes.len() {
        Some(Seq::empty())
    } else {
        match read_batch_at(bytes, at) {
            Some((rows, end)) => if at < end <= bytes.len() {
                match read_partition(bytes, end) {
                    Some(rest) => Some(rows + rest),
                    None => None,
                }
            } else {
                None
            },
            None => None,
        }
    }
}

/// A partition as bytes: its batches, one after the other.
pub open spec fn partition_frame(batches: Seq<Seq<RowView>>) -> Seq<u8>
    decreases batches.len(),
{
    if batches.len() == 0 {
        Seq::empty()
    } else {
        batch_frame(batches[0]) + partition_frame(batches.drop_first())
    }
}

/// The rows of some batches, in order.
pub open spec fn rows_of(batches: Seq<Seq<RowView>>) -> Seq<RowView>
    decreases batches.len(),
{
    if batches.len() == 0 {
        Seq::empty()
    } else {
        batches[0] + rows_of(batches.drop_first())
    }
}

/// A value appended to values is appended to their bytes.
pub proof fn lemma_values_frame_push(values: Seq<Option<u64>>, value: Option<u64>)
    ensures
        values_frame(values.push(value)) == values_frame(values) + value_frame(value),
    decreases values.len(),
{
    let grown = values.push(value);
    if values.len() == 0 {
        assert(grown.drop_first() =~= Seq::<Option<u64>>::empty());
        assert(grown[0] == value);
        assert(values_frame(grown.drop_first()) =~= Seq::<u8>::empty());
        assert(values_frame(values) =~= Seq::<u8>::empty());
        assert(values_frame(grown) =~= value_frame(value) + Seq::<u8>::empty());
        assert(values_frame(grown) =~= values_frame(values) + value_frame(value));
    } else {
        lemma_values_frame_push(values.drop_first(), value);
        assert(grown.drop_first() =~= values.drop_first().push(value));
        assert(grown[0] == values[0]);
        assert(values_frame(grown) =~= value_frame(values[0]) + (values_frame(values.drop_first())
            + value_frame(value)));
        assert(values_frame(grown) =~= values_frame(values) + value_frame(value));
    }
}

/// A row appended to rows is appended to their bytes.
pub proof fn lemma_rows_frame_push(rows: Seq<RowView>, row: RowView)
    ensures
        rows_frame(rows.push(row)) == rows_frame(rows) + row_frame(row),
    decreases rows.len(),
{
    let grown = rows.push(row);
    if rows.len() == 0 {
        assert(grown.drop_first() =~= Seq::<RowView>::empty());
        assert(grown[0] == row);
        assert(rows_frame(grown.drop_first()) =~= Seq::<u8>::empty());
        assert(rows_frame(rows) =~= Seq::<u8>::empty());
        assert(rows_frame(grown) =~= row_frame(row) + Seq::<u8>::empty());
        assert(rows_frame(grown) =~= rows_frame(rows) + row_frame(row));
    } else {
        lemma_rows_frame_push(rows.drop_first(), row);
        assert(grown.drop_first() =~= rows.drop_first().push(row));
        assert(grown[0] == rows[0]);
        assert(rows_frame(grown) =~= row_frame(rows[0]) + (rows_frame(rows.drop_first())
            + row_frame(row)));
        assert(rows_frame(grown) =~= rows_frame(rows) + row_frame(row));
    }
}

fn append_bytes(out: &mut Vec<u8>, bytes: &[u8])
    ensures
        final(out)@ == old(out)@ + bytes@,
{
    let ghost before = out@;
    let mut i: usize = 0;
    while i < bytes.len()
        invariant
            i <= bytes.len(),
            out@ == before + bytes@.take(i as int),
        decreases bytes.len() - i,
    {
        out.push(bytes[i]);
        i = i + 1;
    }
}

fn append_marked(out: &mut Vec<u8>, mark: u8, number: u64)
    ensures
        final(out)@ == old(out)@ + (seq![mark] + spec_u64_to_le_bytes(number)),
{
    out.push(mark);
    let bytes: Vec<u8> = u64_to_le_bytes(number);
    append_bytes(out, bytes.as_slice());
}

fn encode_key(out: &mut Vec<u8>, key: &Option<Vec<Option<u64>>>)
    ensures
        final(out)@ == old(out)@ + key_frame(key_view(*key)),
{
    match key {
        None => {
            append_marked(out, 0, 0);
        },
        Some(values) => {
            append_marked(out, 1, values.len() as u64);
            let ghost head = out@;
            let mut i: usize = 0;
            while i < values.len()
                invariant
                    i <= values.len(),
                    out@ == head + values_frame(values@.take(i as int)),
                decreases values.len() - i,
            {
                match values[i] {
                    Some(v) => {
                        append_marked(out, 1, v);
                    },
                    None => {
                        append_marked(out, 0, 0);
                    },
                }
                proof {
                    assert(values@.take(i + 1) =~= values@.take(i as int).push(values@[i as int]));
                    lemma_values_frame_push(values@.take(i as int), values@[i as int]);
                }
                i = i + 1;
            }
            proof {
                assert(values@.take(values.len() as int) == values@);
            }
        },
    }
}

/// Writes a batch as bytes.
pub fn encode_batch(rows: &Vec<Row>) -> (bytes: Vec<u8>)
    ensures
        bytes@ == batch_frame(row_views(rows@)),
{
    let mut out: Vec<u8> = u64_to_le_bytes(rows.len() as u64);
    let ghost head = out@;
    let ghost views = row_views(rows@);
    let mut i: usize = 0;
    while i < rows.len()
        invariant
            i <= rows.len(),
            views == row_views(rows@),
            out@ == head + rows_frame(views.take(i as int)),
        decreases rows.len() - i,
    {
        let row: &Row = &rows[i];
        encode_key(&mut out, &row.key);
        let payload: &[u8] = row.payload.as_str().as_bytes();
        let len_bytes: Vec<u8> = u64_to_le_bytes(payload.len() as u64);
        append_bytes(&mut out, len_bytes.as_slice());
        append_bytes(&mut out, payload);
        proof {
            assert(views.take(i + 1) =~= views.take(i as int).push(views[i as int]));
            lemma_rows_frame_push(views.take(i as int), views[i as int]);
        }
        i = i + 1;
    }
    proof {
        assert(views.take(rows.len() as int) == views);
    }
    out
}

fn decode_marked(bytes: &[u8], at: usize) -> (res: Option<(bool, u64)>)
    requires
        at <= bytes.len(),
    ensures
        res == read_marked(bytes@, at as int),
        res is Some ==> at + VALUE_BYTES <= bytes.len(),
{
    if bytes.len() - at < VALUE_BYTES {
        return None;
    }
    let mark: u8 = bytes[at];
    if mark > 1 {
        return None;
    }
    let number: u64 = u64_from_le_bytes(slice_subrange(bytes, at + 1, at + 9));
    Some((mark == 1, number))
}

/// What reading more values adds to values read before.
pub open spec fn values_on(done: Seq<Option<u64>>, more: Option<Seq<Option<u64>>>) -> Option<
    Seq<Option<u64>>,
> {
    match more {
        Some(rest) => Some(done + rest),
        None => None,
    }
}

fn decode_key(bytes: &[u8], at: usize) -> (res: Option<(Option<Vec<Option<u64>>>, usize)>)
    requires
        at <= bytes.len(),
    ensures
        match read_key(bytes@, at as int) {
            Some((key, next)) => res matches Some((k, n)) && key_view(k) == key && n == next && at
                < n <= bytes.len(),
            None => res is None,
        },
{
    let (has_key, count): (bool, u64) = match decode_marked(bytes, at) {
        None => {
            return None;
        },
        Some(found) => found,
    };
    if !has_key {
        if count == 0 {
            return Some((None, at + VALUE_BYTES));
        }
        return None;
    }
    let start: usize = at + VALUE_BYTES;
    let ghost whole = read_values(bytes@, start as int, count as nat);
    let mut values: Vec<Option<u64>> = Vec::new();
    let mut p: usize = start;
    let mut left: u64 = count;
    while left > 0
        invariant
            start <= p <= bytes.len(),
            start == at + VALUE_BYTES,
            read_marked(bytes@, at as int) == Some((true, count)),
            p == start + VALUE_BYTES * (count - left),
            left <= count,
            whole == read_values(bytes@, start as int, count as nat),
            values_on(values@, read_values(bytes@, p as int, left as nat)) == whole,
        decreases left,
    {
        let value: Option<u64> = match decode_marked(bytes, p) {
            None => {
                return None;
            },
            Some((true, v)) => Some(v),
            Some((false, v)) => {
                if v != 0 {
                    return None;
                }
                None
            },
        };
        values.push(value);
        p = p + VALUE_BYTES;
        left = left - 1;
    }
    Some((Some(values), p))
}

fn decode_row(bytes: &[u8], at: usize) -> (res: Option<(Row, usize)>)
    requires
        at <= bytes.len(),
    ensures
        match read_row(bytes@, at as int) {
            Some((row, next)) => res matches Some((r, n)) && r@ == row && n == next && at < n
                <= bytes.len(),
            None => res is None,
        },
{
    let (key, next): (Option<Vec<Option<u64>>>, usize) = match decode_key(bytes, at) {
        None => {
            return None;
        },
        Some(found) => found,
    };
    if bytes.len() - next < 8 {
        return None;
    }
    let len: u64 = u64_from_le_bytes(slice_subrange(bytes, next, next + 8));
    let left: usize = bytes.len() - next - 8;
    if len > left as u64 {
        return None;
    }
    let end: usize = next + 8 + (len as usize);
    let payload: Vec<u8> = slice_to_vec(slice_subrange(bytes, next + 8, end));
    match string_from_utf8(payload) {
        None => None,
        Some(text) => Some((Row { key, payload: text }, end)),
    }
}

/// What reading more rows adds to rows read before.
pub open spec fn read_on(done: Seq<RowView>, more: Option<(Seq<RowView>, int)>) -> Option<
    (Seq<RowView>, int),
> {
    match more {
        Some((rest, end)) => Some((done + rest, end)),
        None => None,
    }
}

fn decode_batch_at(bytes: &[u8], at: usize) -> (res: Option<(Vec<Row>, usize)>)
    requires
        at <= bytes.len(),
    ensures
        match read_batch_at(bytes@, at as int) {
            Some((rows, end)) => res matches Some((r, n)) && row_views(r@) == rows && n == end && at
                + 8 <= n <= bytes.len(),
            None => res is None,
        },
{
    if bytes.len() - at < 8 {
        return None;
    }
    let count: u64 = u64_from_le_bytes(slice_subrange(bytes, at, at + 8));
    let ghost whole = read_rows(bytes@, at + 8, count as nat);
    let mut rows: Vec<Row> = Vec::new();
    let mut p: usize = at + 8;
    let mut left: u64 = count;
    while left > 0
        invariant
            at + 8 <= p <= bytes.len(),
            whole == read_batch_at(bytes@, at as int),
            read_on(row_views(rows@), read_rows(bytes@, p as int, left as nat)) == whole,
        decreases left,
    {
        match decode_row(bytes, p) {
            None => {
                return None;
            },
            Some((row, next)) => {
                rows.push(row);
                p = next;
                left = left - 1;
            },
        }
    }
    Some((rows, p))
}

/// Reads a batch back from bytes. Bytes that are no batch, or a batch and
/// more, are refused: a batch that was cut short is never taken for a whole
/// one.
pub fn decode_batch(bytes: &[u8]) -> (res: Option<Vec<Row>>)
    ensures
        match read_batch(bytes@) {
            Some(rows) => res matches Some(r) && row_views(r@) == rows,
            None => res is None,
        },
{
    match decode_batch_at(bytes, 0) {
        None => None,
        Some((rows, end)) => {
            if end == bytes.len() {
                Some(rows)
            } else {
                None
            }
        },
    }
}

/// What reading more of a partition adds to the rows read before.
pub open spec fn rows_on(done: Seq<RowView>, more: Option<Seq<RowView>>) -> Option<Seq<RowView>> {
    match more {
        Some(rest) => Some(done + rest),
        None => None,
    }
}

/// Reads a partition back from the bytes that its batches were written as,
/// one after the other. Bytes that end within a batch are refused: a
/// partition of which a part is missing is never taken for a whole one.
pub fn decode_partition(bytes: &[u8]) -> (res: Option<Vec<Row>>)
    ensures
        match read_partition(bytes@, 0) {
            Some(rows) => res matches Some(r) && row_views(r@) == rows,
            None => res is None,
        },
{
    let ghost whole = read_partition(bytes@, 0);
    let mut rows: Vec<Row> = Vec::new();
    let mut at: usize = 0;
    while at < bytes.len()
        invariant
            at <= bytes.len(),
            whole == read_partition(bytes@, 0),
            rows_on(row_views(rows@), read_partition(bytes@, at as int)) == whole,
        decreases bytes.len() - at,
    {
        match decode_batch_at(bytes, at) {
            None => {
                return None;
            },
            Some((batch, next)) => {
                let mut batch = batch;
                rows.append(&mut batch);
                at = next;
            },
        }
    }
    Some(rows)
}

/// Whether a row can be written: the number of the values of its key and
/// the length of its payload fit in 64 bits.
pub open spec fn row_frameable(row: RowView) -> bool {
    &&& encode_utf8(row.payload).len() <= u64::MAX
    &&& row.key matches Some(values) ==> values.len() <= u64::MAX
}

/// Whether rows can be written.
pub open spec fn frameable(rows: Seq<RowView>) -> bool {
    &&& rows.len() <= u64::MAX
    &&& forall|i: int| 0 <= i < rows.len() ==> row_frameable(#[trigger] rows[i])
}

/// A mark and a number written behind some bytes are read back from there.
pub proof fn lemma_marked_round_trip(before: Seq<u8>, mark: bool, number: u64, after: Seq<u8>)
    ensures
        read_marked(
            before + (seq![if mark {
                1u8
            } else {
                0u8
            }] + spec_u64_to_le_bytes(number)) + after,
            before.len() as int,
        ) == Some((mark, number)),
{
    lemma_auto_spec_u64_to_from_le_bytes();
    let m: u8 = if mark {
        1
    } else {
        0
    };
    let bytes = before + (seq![m] + spec_u64_to_le_bytes(number)) + after;
    let at = before.len() as int;
    assert(spec_u64_to_le_bytes(number).len() == 8);
    assert(bytes[at] == m);
    assert(bytes.subrange(at + 1, at + 9) =~= spec_u64_to_le_bytes(number));
}

/// Values written behind some bytes are read back from there.
pub proof fn lemma_values_round_trip(before: Seq<u8>, values: Seq<Option<u64>>, after: Seq<u8>)
    ensures
        read_values(before + values_frame(values) + after, before.len() as int, values.len())
            == Some(values),
        values_frame(values).len() == VALUE_BYTES * values.len(),
    decreases values.len(),
{
    lemma_auto_spec_u64_to_from_le_bytes();
    if values.len() == 0 {
    } else {
        let first = values[0];
        let rest = values.drop_first();
        let bytes = before + values_frame(values) + after;
        let own = value_frame(first);
        assert(own.len() == 9) by {
            assert(spec_u64_to_le_bytes(0).len() == 8);
            match first {
                Some(v) => {
                    assert(spec_u64_to_le_bytes(v).len() == 8);
                },
                None => {},
            }
        }
        match first {
            Some(v) => {
                lemma_marked_round_trip(before, true, v, values_frame(rest) + after);
                assert(bytes =~= before + (seq![1u8] + spec_u64_to_le_bytes(v)) + (values_frame(rest)
                    + after));
            },
            None => {
                lemma_marked_round_trip(before, false, 0, values_frame(rest) + after);
                assert(bytes =~= before + (seq![0u8] + spec_u64_to_le_bytes(0)) + (values_frame(rest)
                    + after));
            },
        }
        lemma_values_round_trip(before + own, rest, after);
        assert(bytes =~= (before + own) + values_frame(rest) + after);
        assert(seq![first] + rest =~= values);
    }
}

/// A key written behind some bytes is read back from there.
pub proof fn lemma_key_round_trip(before: Seq<u8>, key: Option<Seq<Option<u64>>>, after: Seq<u8>)
    requires
        key matches Some(values) ==> values.len() <= u64::MAX,
    ensures
        read_key(before + key_frame(key) + after, before.len() as int) == Some(
            (key, (before.len() + key_frame(key).len()) as int),
        ),
{
    lemma_auto_spec_u64_to_from_le_bytes();
    let bytes = before + key_frame(key) + after;
    match key {
        None => {
            lemma_marked_round_trip(before, false, 0, after);
            assert(spec_u64_to_le_bytes(0).len() == 8);
        },
        Some(values) => {
            let count = values.len() as u64;
            let head = seq![1u8] + spec_u64_to_le_bytes(count);
            assert(spec_u64_to_le_bytes(count).len() == 8);
            lemma_marked_round_trip(before, true, count, values_frame(values) + after);
            assert(bytes =~= before + head + (values_frame(values) + after));
            lemma_values_round_trip(before + head, values, after);
            assert(bytes =~= (before + head) + values_frame(values) + after);
            assert(key_frame(key).len() == 9 + 9 * values.len());
        },
    }
}

/// A row written behind some bytes is read back from there.
pub proof fn lemma_row_round_trip(before: Seq<u8>, row: RowView, after: Seq<u8>)
    requires
        row_frameable(row),
    ensures
        read_row(before + row_frame(row) + after, before.len() as int) == Some(
            (row, (before.len() + row_frame(row).len()) as int),
        ),
{
    broadcast use vstd::utf8::encode_utf8_valid_utf8, vstd::utf8::encode_utf8_decode_utf8;

    lemma_auto_spec_u64_to_from_le_bytes();
    let bytes = before + row_frame(row) + after;
    let key = key_frame(row.key);
    let payload = encode_utf8(row.payload);
    let len = payload.len() as u64;
    let tail = spec_u64_to_le_bytes(len) + payload + after;
    lemma_key_round_trip(before, row.key, tail);
    assert(bytes =~= before + key + tail);
    let next = (before.len() + key.len()) as int;
    assert(spec_u64_to_le_bytes(len).len() == 8);
    assert(bytes.subrange(next, next + 8) =~= spec_u64_to_le_bytes(len));
    assert(bytes.subrange(next + 8, next + 8 + len) =~= payload);
    assert(row_frame(row).len() == key.len() + 8 + payload.len());
}

/// Rows written behind some bytes are read back from there.
pub proof fn lemma_rows_round_trip(before: Seq<u8>, rows: Seq<RowView>, after: Seq<u8>)
    requires
        frameable(rows),
    ensures
        read_rows(before + rows_frame(rows) + after, before.len() as int, rows.len()) == Some(
            (rows, (before.len() + rows_frame(rows).len()) as int),
        ),
    decreases rows.len(),
{
    if rows.len() == 0 {
    } else {
        let first = rows[0];
        let rest = rows.drop_first();
        let bytes = before + rows_frame(rows) + after;
        assert(frameable(rest)) by {
            assert forall|i: int| 0 <= i < rest.len() implies row_frameable(#[trigger] rest[i]) by {
                assert(rest[i] == rows[i + 1]);
            }
        }
        lemma_row_round_trip(before, first, rows_frame(rest) + after);
        assert(bytes =~= before + row_frame(first) + (rows_frame(rest) + after));
        lemma_rows_round_trip(before + row_frame(first), rest, after);
        assert(bytes =~= (before + row_frame(first)) + rows_frame(rest) + after);
        assert(seq![first] + rest =~= rows);
    }
}

/// A batch written behind some bytes is read back from there.
pub proof fn lemma_batch_round_trip(before: Seq<u8>, rows: Seq<RowView>, after: Seq<u8>)
    requires
        frameable(rows),
    ensures
        read_batch_at(before + batch_frame(rows) + after, before.len() as int) == Some(
            (rows, (before.len() + batch_frame(rows).len()) as int),
        ),
        batch_frame(rows).len() >= 8,
{
    lemma_auto_spec_u64_to_from_le_bytes();
    let head = spec_u64_to_le_bytes(rows.len() as u64);
    let bytes = before + batch_frame(rows) + after;
    let at = before.len() as int;
    assert(head.len() == 8);
    assert(bytes.subrange(at, at + 8) =~= head);
    lemma_rows_round_trip(before + head, rows, after);
    assert(bytes =~= (before + head) + rows_frame(rows) + after);
}

/// What is written is what is read back: the bytes of a batch hold exactly
/// that batch.
pub proof fn law_frame_round_trip(rows: Seq<RowView>)
    requires
        frameable(rows),
    ensures
        read_batch(batch_frame(rows)) == Some(rows),
{
    let none = Seq::<u8>::empty();
    lemma_batch_round_trip(none, rows, none);
    assert(none + batch_frame(rows) + none =~= batch_frame(rows));
}

/// A batch written behind a partition is a batch more in the partition: a
/// partition is written by appending, and what was written stays as it is.
pub proof fn law_partition_grows_by_appending(batches: Seq<Seq<RowView>>, batch: Seq<RowView>)
    ensures
        partition_frame(batches.push(batch)) == partition_frame(batches) + batch_frame(batch),
        rows_of(batches.push(batch)) == rows_of(batches) + batch,
    decreases batches.len(),
{
    let grown = batches.push(batch);
    if batches.len() == 0 {
        assert(grown.drop_first() =~= Seq::<Seq<RowView>>::empty());
        assert(grown[0] == batch);
        assert(partition_frame(grown.drop_first()) =~= Seq::<u8>::empty());
        assert(rows_of(grown.drop_first()) =~= Seq::<RowView>::empty());
        assert(partition_frame(grown) =~= partition_frame(batches) + batch_frame(batch));
        assert(rows_of(grown) =~= rows_of(batches) + batch);
    } else {
        law_partition_grows_by_appending(batches.drop_first(), batch);
        assert(grown.drop_first() =~= batches.drop_first().push(batch));
        assert(grown[0] == batches[0]);
        assert(partition_frame(grown) =~= partition_frame(batches) + batch_frame(batch));
        assert(rows_of(grown) =~= rows_of(batches) + batch);
    }
}

/// Batches written behind some bytes are read back from there.
pub proof fn lemma_partition_round_trip(before: Seq<u8>, batches: Seq<Seq<RowView>>)
    requires
        forall|i: int| 0 <= i < batches.len() ==> frameable(#[trigger] batches[i]),
    ensures
        read_partition(before + partition_frame(batches), before.len() as int) == Some(
            rows_of(batches),
        ),
    decreases batches.len(),
{
    if batches.len() == 0 {
        assert(before + partition_frame(batches) =~= before);
    } else {
        let first = batches[0];
        let rest = batches.drop_first();
        let bytes = before + partition_frame(batches);
        assert forall|i: int| 0 <= i < rest.len() implies frameable(#[trigger] rest[i]) by {
            assert(rest[i] == batches[i + 1]);
        }
        lemma_batch_round_trip(before, first, partition_frame(rest));
        assert(bytes =~= before + batch_frame(first) + partition_frame(rest));
        lemma_partition_round_trip(before + batch_frame(first), rest);
        assert(bytes =~= (before + batch_frame(first)) + partition_frame(rest));
    }
}

/// A partition that was written whole is read back whole: the bytes of its
/// batches hold exactly their rows, in the order in which they were written.
pub proof fn law_partition_round_trip(batches: Seq<Seq<RowView>>)
    requires
        forall|i: int| 0 <= i < batches.len() ==> frameable(#[trigger] batches[i]),
    ensures
        read_partition(partition_frame(batches), 0) == Some(rows_of(batches)),
{
    let none = Seq::<u8>::empty();
    lemma_partition_round_trip(none, batches);
    assert(none + partition_frame(batches) =~= partition_frame(batches));
}

} // verus!
