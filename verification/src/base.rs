//! Small helpers on text.

use vstd::prelude::*;
use vstd::string::StringExecFns;
use vstd::utf8::decode_utf8;
use vstd::utf8::encode_utf8;
use vstd::utf8::is_char_boundary;
use vstd::utf8::valid_utf8;

verus! {

/// Appends one character to a text: `String::push` of the standard library,
/// which puts the character at the end and leaves the rest as it was.
#[verifier::external_body]
pub(crate) fn push_char(s: &mut String, c: char)
    ensures
        final(s)@ == old(s)@.push(c),
{
    s.push(c);
}

/// Reads bytes as text: `String::from_utf8` of the standard library, which
/// gives the text with exactly these bytes where they are valid UTF-8 and
/// fails where they are not.
#[verifier::external_body]
pub(crate) fn string_from_utf8(bytes: Vec<u8>) -> (text: Option<String>)
    ensures
        match text {
            Some(s) => valid_utf8(bytes@) && s@ == decode_utf8(bytes@),
            None => !valid_utf8(bytes@),
        },
{
    String::from_utf8(bytes).ok()
}

/// The characters of a text.
pub fn chars_of(s: &str) -> (chars: Vec<char>)
    ensures
        chars@ == s@,
{
    let mut chars: Vec<char> = Vec::new();
    proof {
        vstd::string::axiom_spec_iter(s);
    }
    for c in it: s.chars()
        invariant
            it.seq() == s@,
            chars@ == it.seq().take(it.index()),
    {
        chars.push(c);
        proof {
            assert(it.seq().take(it.index() + 1) =~= it.seq().take(it.index()).push(c));
        }
    }
    proof {
        assert(s@.take(s@.len() as int) == s@);
    }
    chars
}

/// The text made of the characters given.
pub fn text_of(chars: &Vec<char>) -> (text: String)
    ensures
        text@ == chars@,
{
    let mut text: String = String::new();
    let mut i: usize = 0;
    while i < chars.len()
        invariant
            i <= chars.len(),
            text@ == chars@.take(i as int),
        decreases chars.len() - i,
    {
        push_char(&mut text, chars[i]);
        proof {
            assert(chars@.take(i + 1) =~= chars@.take(i as int).push(chars@[i as int]));
        }
        i = i + 1;
    }
    proof {
        assert(chars@.take(chars.len() as int) == chars@);
    }
    text
}

/// Whether `mask_string` can cut the text where it has to: a text longer
/// than what is kept must have a character start at the cut.
pub open spec fn maskable(text: Seq<char>, unmask_len: usize) -> bool {
    let bytes = encode_utf8(text);
    let len = bytes.len() as usize;
    len > unmask_len ==> is_char_boundary(bytes, len - unmask_len)
}

/// The text with all but its last `unmask_len` bytes replaced by six stars.
/// A text of at most `unmask_len` bytes is left as it is.
pub open spec fn masked(text: Seq<char>, unmask_len: usize) -> Seq<char> {
    let bytes = encode_utf8(text);
    let len = bytes.len() as usize;
    if len <= unmask_len {
        text
    } else {
        "******"@ + decode_utf8(bytes.subrange(len - unmask_len, bytes.len() as int))
    }
}

/// Says whether `mask_string` can take a text.
pub fn can_mask(s: &str, unmask_len: usize) -> (ok: bool)
    ensures
        ok == maskable(s@, unmask_len),
{
    if s.len() <= unmask_len {
        true
    } else {
        s.is_char_boundary(s.len() - unmask_len)
    }
}

/// Hides a secret but for its last `unmask_len` bytes.
pub fn mask_string(s: &str, unmask_len: usize) -> (out: String)
    requires
        maskable(s@, unmask_len),
    ensures
        out@ == masked(s@, unmask_len),
{
    if s.len() <= unmask_len {
        s.to_owned()
    } else {
        let mid: usize = s.len() - unmask_len;
        let (_, tail) = s.split_at(mid);
        let mut ret: String = String::from_str("******");
        ret.append(tail);
        proof {
            vstd::utf8::encode_utf8_decode_utf8(tail@);
        }
        ret
    }
}

/// The character of a decimal digit.
pub open spec fn digit_char(d: int) -> char {
    if d == 0 {
        '0'
    } else if d == 1 {
        '1'
    } else if d == 2 {
        '2'
    } else if d == 3 {
        '3'
    } else if d == 4 {
        '4'
    } else if d == 5 {
        '5'
    } else if d == 6 {
        '6'
    } else if d == 7 {
        '7'
    } else if d == 8 {
        '8'
    } else {
        '9'
    }
}

/// A number written in decimal, without leading zeros.
pub open spec fn decimal(n: nat) -> Seq<char>
    decreases n,
{
    if n < 10 {
        seq![digit_char(n as int)]
    } else {
        decimal(n / 10).push(digit_char((n % 10) as int))
    }
}

fn digit_of(d: u64) -> (c: char)
    requires
        d < 10,
    ensures
        c == digit_char(d as int),
{
    if d == 0 {
        '0'
    } else if d == 1 {
        '1'
    } else if d == 2 {
        '2'
    } else if d == 3 {
        '3'
    } else if d == 4 {
        '4'
    } else if d == 5 {
        '5'
    } else if d == 6 {
        '6'
    } else if d == 7 {
        '7'
    } else if d == 8 {
        '8'
    } else {
        '9'
    }
}

/// Writes a number in decimal.
pub fn decimal_text(n: u64) -> (text: String)
    ensures
        text@ == decimal(n as nat),
{
    // The digits from the last to the first.
    let mut reversed: Vec<char> = Vec::new();
    let mut rest: u64 = n;
    while rest >= 10
        invariant
            decimal(n as nat) == decimal(rest as nat) + reversed@.reverse(),
        decreases rest,
    {
        let ghost before = reversed@;
        reversed.push(digit_of(rest % 10));
        proof {
            assert(reversed@.reverse() =~= seq![digit_char((rest % 10) as int)] + before.reverse());
            assert(decimal(rest as nat) == decimal((rest / 10) as nat).push(
                digit_char((rest % 10) as int),
            ));
            assert(decimal(n as nat) =~= decimal((rest / 10) as nat) + reversed@.reverse());
        }
        rest = rest / 10;
    }
    let mut text: String = String::new();
    push_char(&mut text, digit_of(rest));
    let mut i: usize = reversed.len();
    proof {
        assert(text@ =~= decimal(rest as nat) + reversed@.reverse().take(0));
    }
    while i > 0
        invariant
            i <= reversed.len(),
            text@ == decimal(rest as nat) + reversed@.reverse().take(reversed.len() - i),
        decreases i,
    {
        i = i - 1;
        push_char(&mut text, reversed[i]);
        proof {
            let r = reversed@.reverse();
            let k = reversed.len() - i - 1;
            assert(r[k] == reversed@[i as int]);
            assert(r.take(k + 1) =~= r.take(k).push(r[k]));
            assert(text@ =~= decimal(rest as nat) + r.take(k + 1));
        }
    }
    proof {
        let r = reversed@.reverse();
        assert(r.take(reversed.len() as int) =~= r);
    }
    text
}

/// Whether a character is white space: whether it has the property of
/// that name in the Unicode character database.
pub open spec fn white_space(c: char) -> bool {
    ||| '\u{9}' <= c <= '\u{d}'
    ||| c == ' '
    ||| c == '\u{85}'
    ||| c == '\u{a0}'
    ||| c == '\u{1680}'
    ||| '\u{2000}' <= c <= '\u{200a}'
    ||| c == '\u{2028}'
    ||| c == '\u{2029}'
    ||| c == '\u{202f}'
    ||| c == '\u{205f}'
    ||| c == '\u{3000}'
}

/// A text in quotes, as the standard library writes it for a reader: with
/// what cannot be shown as it is written as an escape.
pub uninterp spec fn quoted(text: Seq<char>) -> Seq<char>;

/// The text that bytes stand for, with a replacement character wherever
/// they are no UTF-8.
pub uninterp spec fn lossy_text(bytes: Seq<u8>) -> Seq<char>;

/// Writes a text in quotes: the `Debug` form of `str` of the standard
/// library, which puts the text between double quotes and escapes what it
/// holds. The result depends on the text alone.
#[verifier::external_body]
pub(crate) fn debug_quoted(text: &str) -> (out: String)
    ensures
        out@ == quoted(text@),
{
    format!("{:?}", text)
}

/// Reads bytes as text whatever they hold: `String::from_utf8_lossy` of the
/// standard library, which puts the replacement character in the place of
/// bytes that are no UTF-8. The result depends on the bytes alone.
#[verifier::external_body]
pub(crate) fn text_from_utf8_lossy(bytes: &[u8]) -> (text: String)
    ensures
        text@ == lossy_text(bytes@),
{
    String::from_utf8_lossy(bytes).into_owned()
}

/// Asks the standard library whether a character is white space:
/// `char::is_whitespace`, which goes by the Unicode property `White_Space`.
/// The contract lists the characters that have it.
#[verifier::external_body]
pub(crate) fn is_white_space(c: char) -> (yes: bool)
    ensures
        yes == white_space(c),
{
    c.is_whitespace()
}

/// The pieces of a text between the occurrences of a separator. A text with
/// `n` separators has `n + 1` pieces, some of them perhaps empty.
pub open spec fn pieces(text: Seq<char>, sep: char) -> Seq<Seq<char>>
    decreases text.len(),
{
    if text.len() == 0 {
        seq![Seq::empty()]
    } else {
        let n = text.len() - 1;
        let before = pieces(text.take(n), sep);
        if text[n] == sep {
            before.push(Seq::empty())
        } else {
            before.update(before.len() - 1, before.last().push(text[n]))
        }
    }
}

/// The lists of a nested vector of characters, as sequences.
pub open spec fn char_views(lists: Seq<Vec<char>>) -> Seq<Seq<char>> {
    Seq::new(lists.len(), |i: int| lists[i]@)
}

/// Cuts a text at every occurrence of a separator.
pub fn split_chars(text: &Vec<char>, sep: char) -> (parts: Vec<Vec<char>>)
    ensures
        char_views(parts@) == pieces(text@, sep),
        parts.len() > 0,
{
    let mut parts: Vec<Vec<char>> = Vec::new();
    let mut current: Vec<char> = Vec::new();
    let mut i: usize = 0;
    proof {
        assert(text@.take(0) =~= Seq::<char>::empty());
        assert(char_views(parts@).push(current@) =~= seq![Seq::<char>::empty()]);
    }
    while i < text.len()
        invariant
            i <= text.len(),
            pieces(text@.take(i as int), sep) == char_views(parts@).push(current@),
        decreases text.len() - i,
    {
        let c: char = text[i];
        let ghost done = char_views(parts@);
        let ghost piece = current@;
        proof {
            assert(text@.take(i + 1).take(i as int) == text@.take(i as int));
            assert(text@.take(i + 1)[i as int] == c);
        }
        if c == sep {
            parts.push(current);
            current = Vec::new();
            proof {
                assert(char_views(parts@) =~= done.push(piece));
            }
        } else {
            current.push(c);
            proof {
                let before = done.push(piece);
                assert(before.update(before.len() - 1, before.last().push(c)) =~= done.push(
                    current@,
                ));
            }
        }
        i = i + 1;
    }
    proof {
        assert(text@.take(text.len() as int) == text@);
    }
    let ghost done = char_views(parts@);
    let ghost piece = current@;
    parts.push(current);
    proof {
        assert(char_views(parts@) =~= done.push(piece));
    }
    parts
}

} // verus!
