//! ASCII escaping: how raw bytes cross to the host as text, and back.
//!
//! A byte string of the protocol need not be text. It is handed over in an
//! escaped form made of printable ASCII only, from which the bytes can be
//! recovered exactly.

use crate::text::{all_ascii, ascii_bytes, ascii_chars, lemma_ascii_is_utf8, string_from_utf8};
use vstd::prelude::*;

verus! {

pub const TAB: u8 = 0x09;

pub const LINE_FEED: u8 = 0x0a;

pub const CARRIAGE_RETURN: u8 = 0x0d;

pub const SPACE: u8 = 0x20;

pub const DOUBLE_QUOTE: u8 = 0x22;

pub const SINGLE_QUOTE: u8 = 0x27;

pub const DIGIT_0: u8 = 0x30;

pub const DIGIT_9: u8 = 0x39;

pub const UPPER_A: u8 = 0x41;

pub const UPPER_F: u8 = 0x46;

pub const BACKSLASH: u8 = 0x5c;

pub const LOWER_A: u8 = 0x61;

pub const LOWER_F: u8 = 0x66;

pub const LOWER_N: u8 = 0x6e;

pub const LOWER_R: u8 = 0x72;

pub const LOWER_T: u8 = 0x74;

pub const LOWER_X: u8 = 0x78;

pub const TILDE: u8 = 0x7e;

/// The lower-case hexadecimal digit of a value below 16, as an ASCII byte.
pub open spec fn hex_digit(n: u8) -> u8 {
    if n < 10 {
        (DIGIT_0 + n) as u8
    } else {
        (LOWER_A + (n - 10)) as u8
    }
}

/// The escaped form of one byte.
///
/// Tab, carriage return, line feed, both quotes and the backslash are
/// written as a backslash and a letter or the character itself; the other
/// printable characters stand for themselves; every other byte is written
/// as `\x` and two lower-case hexadecimal digits.
pub open spec fn escaped_byte(b: u8) -> Seq<u8> {
    if b == TAB {
        seq![BACKSLASH, LOWER_T]
    } else if b == CARRIAGE_RETURN {
        seq![BACKSLASH, LOWER_R]
    } else if b == LINE_FEED {
        seq![BACKSLASH, LOWER_N]
    } else if b == SINGLE_QUOTE {
        seq![BACKSLASH, SINGLE_QUOTE]
    } else if b == DOUBLE_QUOTE {
        seq![BACKSLASH, DOUBLE_QUOTE]
    } else if b == BACKSLASH {
        seq![BACKSLASH, BACKSLASH]
    } else if SPACE <= b <= TILDE {
        seq![b]
    } else {
        seq![BACKSLASH, LOWER_X, hex_digit(b / 16), hex_digit(b % 16)]
    }
}

/// The escaped form of a byte string, as ASCII bytes: the escaped forms of
/// its bytes, one after the other.
pub open spec fn escaped_bytes(bytes: Seq<u8>) -> Seq<u8>
    decreases bytes.len(),
{
    if bytes.len() == 0 {
        Seq::empty()
    } else {
        escaped_byte(bytes[0]) + escaped_bytes(bytes.drop_first())
    }
}

/// The escaped form of a byte string, as text.
pub open spec fn escaped(bytes: Seq<u8>) -> Seq<char> {
    ascii_chars(escaped_bytes(bytes))
}

/// The value of a hexadecimal digit of either case, if the byte is one.
pub open spec fn hex_value(c: u8) -> Option<u8> {
    if DIGIT_0 <= c <= DIGIT_9 {
        Some((c - DIGIT_0) as u8)
    } else if LOWER_A <= c <= LOWER_F {
        Some((c - LOWER_A + 10) as u8)
    } else if UPPER_A <= c <= UPPER_F {
        Some((c - UPPER_A + 10) as u8)
    } else {
        None
    }
}

/// The byte that the escape sequence at the head of `text` stands for, and
/// the number of bytes the sequence takes. `None` where `text` is empty or
/// does not start with a printable character or a complete escape sequence.
pub open spec fn first_token(text: Seq<u8>) -> Option<(u8, int)> {
    if text.len() == 0 {
        None
    } else if text[0] != BACKSLASH {
        if SPACE <= text[0] <= TILDE {
            Some((text[0], 1))
        } else {
            None
        }
    } else if text.len() < 2 {
        None
    } else if text[1] == LOWER_T {
        Some((TAB, 2))
    } else if text[1] == LOWER_R {
        Some((CARRIAGE_RETURN, 2))
    } else if text[1] == LOWER_N {
        Some((LINE_FEED, 2))
    } else if text[1] == SINGLE_QUOTE {
        Some((SINGLE_QUOTE, 2))
    } else if text[1] == DOUBLE_QUOTE {
        Some((DOUBLE_QUOTE, 2))
    } else if text[1] == BACKSLASH {
        Some((BACKSLASH, 2))
    } else if text[1] == LOWER_X && text.len() >= 4 {
        match (hex_value(text[2]), hex_value(text[3])) {
            (Some(high), Some(low)) => Some(((high * 16 + low) as u8, 4)),
            _ => None,
        }
    } else {
        None
    }
}

/// `rest` with `head` in front, where there is a `rest`.
pub open spec fn prepend(head: Seq<u8>, rest: Option<Seq<u8>>) -> Option<Seq<u8>> {
    match rest {
        Some(tail) => Some(head + tail),
        None => None,
    }
}

/// The bytes that an escaped form, given as ASCII bytes, stands for.
/// `None` where it is not a sequence of printable characters and complete
/// escape sequences.
pub open spec fn unescaped_bytes(text: Seq<u8>) -> Option<Seq<u8>>
    decreases text.len(),
{
    if text.len() == 0 {
        Some(Seq::empty())
    } else {
        match first_token(text) {
            Some((byte, width)) => prepend(seq![byte], unescaped_bytes(text.skip(width))),
            None => None,
        }
    }
}

/// The bytes that an escaped text stands for. `None` where the text holds a
/// character outside ASCII, or is no escaped form.
pub open spec fn unescaped(text: Seq<char>) -> Option<Seq<u8>> {
    if vstd::utf8::is_ascii_chars(text) {
        unescaped_bytes(ascii_bytes(text))
    } else {
        None
    }
}

/// An escaped form holds printable ASCII only.
pub open spec fn all_printable(bytes: Seq<u8>) -> bool {
    forall|i: int| 0 <= i < bytes.len() ==> SPACE <= #[trigger] bytes[i] <= TILDE
}

/// Escaping goes byte by byte: the escaped form of two strings joined is
/// the two escaped forms joined.
pub proof fn lemma_escaped_concat(front: Seq<u8>, back: Seq<u8>)
    ensures
        escaped_bytes(front + back) == escaped_bytes(front) + escaped_bytes(back),
    decreases front.len(),
{
    if front.len() == 0 {
        assert(front + back =~= back);
        assert(escaped_bytes(front) + escaped_bytes(back) =~= escaped_bytes(back));
    } else {
        lemma_escaped_concat(front.drop_first(), back);
        assert((front + back).drop_first() =~= front.drop_first() + back);
        assert(escaped_byte(front[0]) + (escaped_bytes(front.drop_first()) + escaped_bytes(back))
            =~= (escaped_byte(front[0]) + escaped_bytes(front.drop_first())) + escaped_bytes(
            back,
        ));
    }
}

/// The escaped form of a string of one byte is that byte's escaped form.
pub proof fn lemma_escaped_single(b: u8)
    ensures
        escaped_bytes(seq![b]) == escaped_byte(b),
{
    assert(seq![b].drop_first() =~= Seq::<u8>::empty());
    assert(escaped_bytes(Seq::<u8>::empty()) =~= Seq::<u8>::empty());
    assert(escaped_byte(b) + Seq::<u8>::empty() =~= escaped_byte(b));
}

/// Every escaped form is made of printable ASCII.
pub proof fn lemma_escaped_is_printable(bytes: Seq<u8>)
    ensures
        all_printable(escaped_bytes(bytes)),
        all_ascii(escaped_bytes(bytes)),
    decreases bytes.len(),
{
    if bytes.len() > 0 {
        lemma_escaped_is_printable(bytes.drop_first());
        let head = escaped_byte(bytes[0]);
        let tail = escaped_bytes(bytes.drop_first());
        assert forall|i: int| 0 <= i < (head + tail).len() implies SPACE <= #[trigger] (head
            + tail)[i] <= TILDE by {
            if i >= head.len() {
                assert((head + tail)[i] == tail[i - head.len()]);
            }
        }
    }
}

/// The escape sequence of a byte, in front of anything, reads back as that
/// byte.
pub proof fn lemma_first_token_of_escaped(b: u8, rest: Seq<u8>)
    ensures
        first_token(escaped_byte(b) + rest) == Some((b, escaped_byte(b).len() as int)),
        (escaped_byte(b) + rest).skip(escaped_byte(b).len() as int) == rest,
{
    let head = escaped_byte(b);
    let text = head + rest;
    assert(text.skip(head.len() as int) =~= rest);
    assert(text[0] == head[0]);
    if head.len() >= 2 {
        assert(text[1] == head[1]);
    }
    if head.len() == 4 {
        assert(text[2] == head[2]);
        assert(text[3] == head[3]);
        let high: u8 = b / 16;
        let low: u8 = b % 16;
        assert(hex_value(hex_digit(high)) == Some(high));
        assert(hex_value(hex_digit(low)) == Some(low));
        assert(high * 16 + low == b);
    }
}

/// Escaping loses nothing: the escaped form of any byte string reads back
/// as that byte string.
pub proof fn lemma_unescape_escaped_bytes(bytes: Seq<u8>)
    ensures
        unescaped_bytes(escaped_bytes(bytes)) == Some(bytes),
    decreases bytes.len(),
{
    if bytes.len() == 0 {
        assert(bytes =~= Seq::empty());
    } else {
        let rest = escaped_bytes(bytes.drop_first());
        lemma_first_token_of_escaped(bytes[0], rest);
        lemma_unescape_escaped_bytes(bytes.drop_first());
        assert(seq![bytes[0]] + bytes.drop_first() =~= bytes);
    }
}

/// Escaping loses nothing: for every byte string, un-escaping its escaped
/// text gives the byte string back.
pub proof fn lemma_escape_round_trip(bytes: Seq<u8>)
    ensures
        unescaped(escaped(bytes)) == Some(bytes),
{
    let raw = escaped_bytes(bytes);
    lemma_escaped_is_printable(bytes);
    lemma_unescape_escaped_bytes(bytes);
    let text = ascii_chars(raw);
    assert(vstd::utf8::is_ascii_chars(text)) by {
        assert forall|i: int| 0 <= i < text.len() implies '\0' <= #[trigger] text[i]
            <= '\u{7f}' by {
            assert(raw[i] < 128);
        }
    }
    assert(ascii_bytes(text) =~= raw) by {
        assert forall|i: int| 0 <= i < raw.len() implies ascii_bytes(text)[i] == raw[i] by {
            assert(raw[i] < 128);
        }
    }
}

/// Two byte strings with the same escaped text are the same byte string.
pub proof fn lemma_escape_injective(a: Seq<u8>, b: Seq<u8>)
    requires
        escaped(a) == escaped(b),
    ensures
        a == b,
{
    lemma_escape_round_trip(a);
    lemma_escape_round_trip(b);
}

fn hex_digit_of(n: u8) -> (digit: u8)
    requires
        n < 16,
    ensures
        digit == hex_digit(n),
{
    if n < 10 {
        DIGIT_0 + n
    } else {
        LOWER_A + (n - 10)
    }
}

fn push_escaped(out: &mut Vec<u8>, b: u8)
    ensures
        final(out)@ == old(out)@ + escaped_byte(b),
{
    if b == TAB {
        out.push(BACKSLASH);
        out.push(LOWER_T);
    } else if b == CARRIAGE_RETURN {
        out.push(BACKSLASH);
        out.push(LOWER_R);
    } else if b == LINE_FEED {
        out.push(BACKSLASH);
        out.push(LOWER_N);
    } else if b == SINGLE_QUOTE {
        out.push(BACKSLASH);
        out.push(SINGLE_QUOTE);
    } else if b == DOUBLE_QUOTE {
        out.push(BACKSLASH);
        out.push(DOUBLE_QUOTE);
    } else if b == BACKSLASH {
        out.push(BACKSLASH);
        out.push(BACKSLASH);
    } else if SPACE <= b && b <= TILDE {
        out.push(b);
    } else {
        out.push(BACKSLASH);
        out.push(LOWER_X);
        out.push(hex_digit_of(b / 16));
        out.push(hex_digit_of(b % 16));
    }
    assert(out@ =~= old(out)@ + escaped_byte(b));
}

/// Renders raw bytes as escaped text.
pub fn escape_ascii(bytes: &[u8]) -> (text: String)
    ensures
        text@ == escaped(bytes@),
{
    let mut out: Vec<u8> = Vec::new();
    let mut i: usize = 0;
    assert(bytes@.take(0) =~= Seq::<u8>::empty());
    while i < bytes.len()
        invariant
            i <= bytes.len(),
            out@ == escaped_bytes(bytes@.take(i as int)),
        decreases bytes.len() - i,
    {
        let b = bytes[i];
        proof {
            let done = bytes@.take(i as int);
            lemma_escaped_concat(done, seq![b]);
            assert(done + seq![b] =~= bytes@.take(i + 1));
            lemma_escaped_single(b);
        }
        push_escaped(&mut out, b);
        i += 1;
    }
    proof {
        assert(bytes@.take(i as int) =~= bytes@);
        lemma_escaped_is_printable(bytes@);
        lemma_ascii_is_utf8(out@);
    }
    let text = string_from_utf8(out).unwrap();
    proof {
        vstd::utf8::encode_utf8_decode_utf8(text@);
    }
    text
}

fn hex_value_of(c: u8) -> (value: Option<u8>)
    ensures
        value == hex_value(c),
{
    if DIGIT_0 <= c && c <= DIGIT_9 {
        Some(c - DIGIT_0)
    } else if LOWER_A <= c && c <= LOWER_F {
        Some(c - LOWER_A + 10)
    } else if UPPER_A <= c && c <= UPPER_F {
        Some(c - UPPER_A + 10)
    } else {
        None
    }
}

/// Reads the escape sequence that starts at `at`.
fn token_at(text: &[u8], at: usize) -> (token: Option<(u8, usize)>)
    requires
        at < text.len(),
    ensures
        match token {
            Some((byte, width)) => first_token(text@.skip(at as int)) == Some(
                (byte, width as int),
            ) && at + width <= text.len(),
            None => first_token(text@.skip(at as int)) is None,
        },
{
    let ghost tail = text@.skip(at as int);
    let left = text.len() - at;
    assert(tail.len() == left);
    assert(tail[0] == text@[at as int]);
    let c = text[at];
    if c != BACKSLASH {
        if SPACE <= c && c <= TILDE {
            return Some((c, 1));
        } else {
            return None;
        }
    }
    if left < 2 {
        return None;
    }
    assert(tail[1] == text@[at + 1]);
    let e = text[at + 1];
    if e == LOWER_T {
        Some((TAB, 2))
    } else if e == LOWER_R {
        Some((CARRIAGE_RETURN, 2))
    } else if e == LOWER_N {
        Some((LINE_FEED, 2))
    } else if e == SINGLE_QUOTE {
        Some((SINGLE_QUOTE, 2))
    } else if e == DOUBLE_QUOTE {
        Some((DOUBLE_QUOTE, 2))
    } else if e == BACKSLASH {
        Some((BACKSLASH, 2))
    } else if e == LOWER_X && left >= 4 {
        assert(tail[2] == text@[at + 2]);
        assert(tail[3] == text@[at + 3]);
        let high = hex_value_of(text[at + 2]);
        let low = hex_value_of(text[at + 3]);
        match (high, low) {
            (Some(h), Some(l)) => Some((h * 16 + l, 4)),
            _ => None,
        }
    } else {
        None
    }
}

/// Recovers the raw bytes from escaped text.
///
/// Gives `None` where the text is no escaped form: where it holds a
/// character that is not printable ASCII, a backslash that starts none of
/// the escape sequences, or a `\x` without two hexadecimal digits.
pub fn unescape_ascii(text: &str) -> (bytes: Option<Vec<u8>>)
    ensures
        match bytes {
            Some(found) => unescaped(text@) == Some(found@),
            None => unescaped(text@) is None,
        },
{
    if !text.is_ascii() {
        return None;
    }
    let raw = text.as_bytes();
    proof {
        vstd::string::is_ascii_spec_bytes(text);
        assert(raw@ =~= ascii_bytes(text@));
        assert(raw@.skip(0) =~= raw@);
        assert(Seq::<u8>::empty() + raw@ =~= raw@);
    }
    let mut out: Vec<u8> = Vec::new();
    let mut i: usize = 0;
    while i < raw.len()
        invariant
            i <= raw.len(),
            unescaped(text@) == unescaped_bytes(raw@),
            unescaped_bytes(raw@) == prepend(out@, unescaped_bytes(raw@.skip(i as int))),
        decreases raw.len() - i,
    {
        let ghost tail = raw@.skip(i as int);
        match token_at(raw, i) {
            Some((byte, width)) => {
                proof {
                    assert(tail.skip(width as int) =~= raw@.skip(i + width));
                    let rest = unescaped_bytes(raw@.skip(i + width));
                    if rest is Some {
                        assert(out@ + (seq![byte] + rest->Some_0) =~= (out@ + seq![byte])
                            + rest->Some_0);
                    }
                }
                out.push(byte);
                i += width;
            },
            None => {
                assert(unescaped_bytes(tail) is None);
                return None;
            },
        }
    }
    proof {
        assert(out@ + Seq::<u8>::empty() =~= out@);
    }
    Some(out)
}

} // verus!
