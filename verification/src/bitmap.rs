//! Bitmaps written as text: numbers between commas, white space anywhere.

use roaring::RoaringTreemap;
use vstd::prelude::*;
use vstd::slice::slice_to_vec;
use vstd::string::StringExecFns;
use vstd::utf8::{decode_utf8, valid_utf8};
use crate::base::{
    char_views, chars_of, debug_quoted, is_white_space, lossy_text, pieces, quoted, split_chars,
    string_from_utf8, text_from_utf8_lossy, white_space,
};
use crate::cluster::ErrorCode;

verus! {

/// The compressed bitmap of 64-bit values of the `roaring` library.
#[verifier::external_type_specification]
#[verifier::external_body]
pub struct ExRoaringTreemap(roaring::RoaringTreemap);

/// The values that a bitmap holds.
pub uninterp spec fn treemap_values(map: RoaringTreemap) -> Set<u64>;

/// Makes a bitmap of the values given: `RoaringTreemap::from_iter`, which
/// starts from the empty bitmap and inserts each value of the iterator, so
/// that the bitmap holds exactly the values that occur, each once.
#[verifier::external_body]
fn treemap_from_values(values: &Vec<u64>) -> (map: RoaringTreemap)
    ensures
        treemap_values(map) == values@.to_set(),
{
    RoaringTreemap::from_iter(values.iter())
}

pub open spec fn is_digit(c: char) -> bool {
    '0' <= c <= '9'
}

/// The number that a run of digits stands for.
pub open spec fn digits_value(digits: Seq<char>) -> nat
    decreases digits.len(),
{
    if digits.len() == 0 {
        0
    } else {
        let n = digits.len() - 1;
        digits_value(digits.take(n)) * 10 + (digits[n] as nat - '0' as nat) as nat
    }
}

pub open spec fn all_digits(text: Seq<char>) -> bool {
    forall|i: int| 0 <= i < text.len() ==> is_digit(#[trigger] text[i])
}

/// A piece without the plus sign that may stand before its digits.
pub open spec fn unsigned_part(piece: Seq<char>) -> Seq<char> {
    if piece.len() > 0 && piece[0] == '+' {
        piece.skip(1)
    } else {
        piece
    }
}

/// The number that a piece stands for: digits, at least one, perhaps behind
/// a plus sign, whose value fits in 64 bits. Anything else is no number.
pub open spec fn number_of(piece: Seq<char>) -> Option<u64> {
    let body = unsigned_part(piece);
    if body.len() > 0 && all_digits(body) && digits_value(body) <= u64::MAX {
        Some(digits_value(body) as u64)
    } else {
        None
    }
}

/// The numbers that a list of pieces stands for, if each of them is a
/// number.
pub open spec fn numbers_of(parts: Seq<Seq<char>>) -> Option<Seq<u64>> {
    if forall|i: int| 0 <= i < parts.len() ==> number_of(#[trigger] parts[i]) is Some {
        Some(Seq::new(parts.len(), |i: int| number_of(parts[i])->0))
    } else {
        None
    }
}

/// A text without its white space.
pub open spec fn squeezed(text: Seq<char>) -> Seq<char> {
    text.filter(|c: char| !white_space(c))
}

/// The values that a bitmap written as text holds: the text, its white
/// space taken out, is cut at the commas, and every piece must be a number.
pub open spec fn bitmap_values(buf: Seq<u8>) -> Option<Seq<u64>> {
    if valid_utf8(buf) {
        numbers_of(pieces(squeezed(decode_utf8(buf)), ','))
    } else {
        None
    }
}

/// A run of digits is worth at least as much as any run it starts with.
proof fn lemma_digits_value_grows(digits: Seq<char>, k: int)
    requires
        0 <= k <= digits.len(),
    ensures
        digits_value(digits.take(k)) <= digits_value(digits),
    decreases digits.len(),
{
    if k < digits.len() {
        let n = digits.len() - 1;
        lemma_digits_value_grows(digits.take(n), k);
        assert(digits.take(n).take(k) == digits.take(k));
    } else {
        assert(digits.take(k) == digits);
    }
}

fn parse_number(piece: &Vec<char>) -> (number: Option<u64>)
    ensures
        number == number_of(piece@),
{
    let start: usize = if piece.len() > 0 && piece[0] == '+' {
        1
    } else {
        0
    };
    let ghost body = unsigned_part(piece@);
    proof {
        assert(body =~= piece@.skip(start as int));
    }
    if start == piece.len() {
        return None;
    }
    let mut value: u64 = 0;
    let mut i: usize = start;
    proof {
        assert(body.take(0) =~= Seq::<char>::empty());
    }
    while i < piece.len()
        invariant
            start <= i <= piece.len(),
            start < piece.len(),
            body == piece@.skip(start as int),
            body == unsigned_part(piece@),
            all_digits(body.take(i - start)),
            value == digits_value(body.take(i - start)),
        decreases piece.len() - i,
    {
        let c: char = piece[i];
        proof {
            assert(body[i - start] == c);
            assert(body.take(i - start + 1).take(i - start) == body.take(i - start));
        }
        if !(c >= '0' && c <= '9') {
            proof {
                assert(!is_digit(body[i - start]));
            }
            return None;
        }
        let d: u64 = (c as u32 - '0' as u32) as u64;
        if value > (u64::MAX - d) / 10 {
            proof {
                lemma_digits_value_grows(body, i - start + 1);
                assert(digits_value(body.take(i - start + 1)) == value * 10 + d);
            }
            return None;
        }
        value = value * 10 + d;
        proof {
            let next = body.take(i - start + 1);
            assert forall|k: int| 0 <= k < next.len() implies is_digit(#[trigger] next[k]) by {
                if k < i - start {
                    assert(next[k] == body.take(i - start)[k]);
                }
            }
        }
        i = i + 1;
    }
    proof {
        assert(body.take(body.len() as int) == body);
    }
    Some(value)
}

fn squeeze(text: &Vec<char>) -> (out: Vec<char>)
    ensures
        out@ == squeezed(text@),
{
    let ghost keep = |c: char| !white_space(c);
    let mut out: Vec<char> = Vec::new();
    let mut i: usize = 0;
    proof {
        reveal(Seq::filter);
        assert(text@.take(0).filter(keep) =~= Seq::<char>::empty());
    }
    while i < text.len()
        invariant
            i <= text.len(),
            keep == (|c: char| !white_space(c)),
            out@ == text@.take(i as int).filter(keep),
        decreases text.len() - i,
    {
        proof {
            assert(text@.take(i + 1) =~= text@.take(i as int).push(text@[i as int]));
            text@.take(i as int).lemma_filter_push(text@[i as int], keep);
        }
        if !is_white_space(text[i]) {
            out.push(text[i]);
        }
        i = i + 1;
    }
    proof {
        assert(text@.take(text.len() as int) == text@);
    }
    out
}

/// What is said of bytes that are no bitmap: that they are none, and the
/// bytes as text, in quotes.
pub open spec fn invalid_text(buf: Seq<u8>) -> Seq<char> {
    "Invalid Bitmap value: "@ + quoted(lossy_text(buf))
}

fn invalid(buf: &[u8]) -> (e: ErrorCode)
    ensures
        e matches ErrorCode::BadBytes(m) && m@ == invalid_text(buf@),
{
    let mut message: String = String::from_str("Invalid Bitmap value: ");
    let shown: String = text_from_utf8_lossy(buf);
    let in_quotes: String = debug_quoted(shown.as_str());
    message.append(in_quotes.as_str());
    ErrorCode::BadBytes(message)
}

/// Reads the values of a bitmap written as text.
pub fn parse_bitmap_values(buf: &[u8]) -> (res: Result<Vec<u64>, ErrorCode>)
    ensures
        match bitmap_values(buf@) {
            Some(values) => res matches Ok(v) && v@ == values,
            None => res matches Err(ErrorCode::BadBytes(m)) && m@ == invalid_text(buf@),
        },
{
    let text: String = match string_from_utf8(slice_to_vec(buf)) {
        Some(text) => text,
        None => {
            return Err(invalid(buf));
        },
    };
    let chars: Vec<char> = chars_of(text.as_str());
    let kept: Vec<char> = squeeze(&chars);
    let parts: Vec<Vec<char>> = split_chars(&kept, ',');
    let ghost all = char_views(parts@);
    let mut values: Vec<u64> = Vec::new();
    let mut i: usize = 0;
    while i < parts.len()
        invariant
            i <= parts.len(),
            all == char_views(parts@),
            valid_utf8(buf@),
            all == pieces(squeezed(decode_utf8(buf@)), ','),
            values.len() == i,
            forall|k: int| 0 <= k < i ==> number_of(#[trigger] all[k]) == Some(values@[k]),
        decreases parts.len() - i,
    {
        match parse_number(&parts[i]) {
            Some(v) => {
                values.push(v);
            },
            None => {
                proof {
                    assert(number_of(all[i as int]) is None);
                }
                return Err(invalid(buf));
            },
        }
        i = i + 1;
    }
    proof {
        assert(values@ =~= Seq::new(all.len(), |k: int| number_of(all[k])->0));
    }
    Ok(values)
}

/// Reads a bitmap written as text.
pub fn parse_bitmap(buf: &[u8]) -> (res: Result<RoaringTreemap, ErrorCode>)
    ensures
        match bitmap_values(buf@) {
            Some(values) => res matches Ok(map) && treemap_values(map) == values.to_set(),
            None => res matches Err(ErrorCode::BadBytes(m)) && m@ == invalid_text(buf@),
        },
{
    match parse_bitmap_values(buf) {
        Ok(v) => Ok(treemap_from_values(&v)),
        Err(e) => Err(e),
    }
}

} // verus!
