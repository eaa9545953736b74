//! The grammar, stated over sequences of bytes.
//!
//! ```text
//! value    := integer | string | list | dict
//! integer  := 'i' '-'? digit+ 'e'
//! string   := length ':' byte{length}
//! list     := 'l' value* 'e'
//! dict     := 'd' (string value)* 'e'
//! ```
//!
//! A parse starts at a position in the input and gives either the value found
//! together with the position just behind it, or the reason it failed.

use vstd::prelude::*;
use crate::error::Error;

verus! {

/// Opens an integer: `i`.
pub const OPEN_INTEGER: u8 = 0x69;

/// Opens a list: `l`.
pub const OPEN_LIST: u8 = 0x6c;

/// Opens a dictionary: `d`.
pub const OPEN_DICT: u8 = 0x64;

/// Closes an integer, a list or a dictionary: `e`.
pub const CLOSE: u8 = 0x65;

/// Stands between the length of a byte string and its bytes: `:`.
pub const COLON: u8 = 0x3a;

/// The sign of a negative integer: `-`.
pub const MINUS: u8 = 0x2d;

/// The digit `0`.
pub const ZERO: u8 = 0x30;

/// A value as the wire holds it.
pub enum WireValue {
    /// A signed integer of any size.
    Integer(int),
    /// A byte string, which need not be a text.
    Bytes(Seq<u8>),
    /// Values in their order.
    List(Seq<WireValue>),
    /// Entries in their order, each a key, which is a byte string, and the
    /// value that belongs to it.
    Dict(Seq<(Seq<u8>, WireValue)>),
}

/// The byte at `pos`, or `Eof` where the input has none there.
pub open spec fn byte_at(bytes: Seq<u8>, pos: int) -> Result<u8, Error> {
    if 0 <= pos < bytes.len() {
        Ok(bytes[pos])
    } else {
        Err(Error::Eof)
    }
}

/// Whether `b` is one of `0` to `9`.
pub open spec fn is_digit(b: u8) -> bool {
    ZERO <= b <= ZERO + 9
}

/// The number that a run of decimal digits denotes, most significant first.
pub open spec fn digits_value(digits: Seq<u8>) -> nat
    decreases digits.len(),
{
    if digits.len() == 0 {
        0
    } else {
        digits_value(digits.drop_last()) * 10 + (digits.last() - ZERO) as nat
    }
}

/// How many digits stand in a row in `bytes` from `pos` on.
pub open spec fn digit_run(bytes: Seq<u8>, pos: int) -> nat
    decreases bytes.len() - pos,
{
    if 0 <= pos < bytes.len() && is_digit(bytes[pos]) {
        1 + digit_run(bytes, pos + 1)
    } else {
        0
    }
}

/// The decimal digits of `n`, without leading zeros.
pub open spec fn decimal(n: nat) -> Seq<u8>
    decreases n,
{
    if n < 10 {
        seq![(ZERO + n) as u8]
    } else {
        decimal(n / 10).push((ZERO + n % 10) as u8)
    }
}

/// What a parse of an integer at `pos` gives, whatever its size: `i`, an
/// optional `-`, one digit or more, `e`.
pub open spec fn signed(bytes: Seq<u8>, pos: int) -> Result<(int, int), Error> {
    if pos >= bytes.len() {
        Err(Error::Eof)
    } else if bytes[pos] != OPEN_INTEGER {
        Err(Error::ExpectedI)
    } else if pos + 1 >= bytes.len() {
        Err(Error::Eof)
    } else {
        let negative = bytes[pos + 1] == MINUS;
        let start = if negative { pos + 2 } else { pos + 1 };
        if start >= bytes.len() {
            Err(Error::Eof)
        } else if !is_digit(bytes[start]) {
            Err(Error::ExpectedInteger)
        } else {
            let end = start + digit_run(bytes, start);
            if end < bytes.len() && bytes[end] == CLOSE {
                let magnitude = digits_value(bytes.subrange(start, end));
                Ok((if negative { -magnitude } else { magnitude as int }, end + 1))
            } else {
                Err(Error::UnexpectedChar)
            }
        }
    }
}

/// What a parse of an integer that has to lie between `low` and `high` gives.
/// One that is well formed but lies outside counts as `ExpectedInteger`.
pub open spec fn integer(bytes: Seq<u8>, pos: int, low: int, high: int) -> Result<(int, int), Error> {
    match signed(bytes, pos) {
        Ok((v, end)) => if low <= v <= high {
            Ok((v, end))
        } else {
            Err(Error::ExpectedInteger)
        },
        Err(e) => Err(e),
    }
}

/// What a parse of a length prefix at `pos` gives: one digit or more, `:`.
///
/// A `:` with no digit before it fails with `ExpectedInteger`, and any other
/// byte that is no digit, at the start or behind the digits, with
/// `ExpectedColon`.
pub open spec fn length(bytes: Seq<u8>, pos: int) -> Result<(nat, int), Error> {
    if pos >= bytes.len() {
        Err(Error::Eof)
    } else if bytes[pos] == COLON {
        Err(Error::ExpectedInteger)
    } else if !is_digit(bytes[pos]) {
        Err(Error::ExpectedColon)
    } else {
        let end = pos + digit_run(bytes, pos);
        if end < bytes.len() && bytes[end] == COLON {
            Ok((digits_value(bytes.subrange(pos, end)), end + 1))
        } else {
            Err(Error::ExpectedColon)
        }
    }
}

/// What a parse of a byte string at `pos` gives: a length prefix, then that
/// many bytes.
pub open spec fn byte_string(bytes: Seq<u8>, pos: int) -> Result<(Seq<u8>, int), Error> {
    match length(bytes, pos) {
        Ok((n, start)) => if start + n <= bytes.len() {
            Ok((bytes.subrange(start, start + n), start + n))
        } else {
            Err(Error::BufferTooShort)
        },
        Err(e) => Err(e),
    }
}

/// What a parse of a text at `pos` gives: a byte string that is valid UTF-8.
pub open spec fn text(bytes: Seq<u8>, pos: int) -> Result<(Seq<u8>, int), Error> {
    match byte_string(bytes, pos) {
        Ok((content, end)) => if vstd::utf8::valid_utf8(content) {
            Ok((content, end))
        } else {
            Err(Error::InvalidText)
        },
        Err(e) => Err(e),
    }
}

/// The bytes of the integer `v`.
pub open spec fn encode_integer(v: int) -> Seq<u8> {
    if v < 0 {
        seq![OPEN_INTEGER, MINUS] + decimal((-v) as nat) + seq![CLOSE]
    } else {
        seq![OPEN_INTEGER] + decimal(v as nat) + seq![CLOSE]
    }
}

/// The bytes of the byte string `content`.
pub open spec fn encode_byte_string(content: Seq<u8>) -> Seq<u8> {
    decimal(content.len()) + seq![COLON] + content
}

/// Whether `bytes` are what is written of one byte string, and of nothing
/// else: the only thing that can be the key of an entry.
pub open spec fn is_byte_string(bytes: Seq<u8>) -> bool {
    match byte_string(bytes, 0) {
        Ok((content, _)) => bytes == encode_byte_string(content),
        Err(_) => false,
    }
}

/// The bytes of the wire value `v`, by the grammar.
pub open spec fn encode(v: WireValue) -> Seq<u8>
    decreases v,
{
    match v {
        WireValue::Integer(i) => encode_integer(i),
        WireValue::Bytes(content) => encode_byte_string(content),
        WireValue::List(items) => seq![OPEN_LIST] + encode_items(items, items.len()) + seq![CLOSE],
        WireValue::Dict(entries) => seq![OPEN_DICT] + encode_entries(entries, entries.len()) + seq![CLOSE],
    }
}

/// The bytes of the first `n` of `items`, in a row.
pub open spec fn encode_items(items: Seq<WireValue>, n: nat) -> Seq<u8>
    decreases items, n,
{
    if n == 0 || n > items.len() {
        Seq::empty()
    } else {
        encode_items(items, (n - 1) as nat) + encode(items[n - 1])
    }
}

/// The bytes of the first `n` of `entries`, in a row: for each its key as a
/// byte string, and its value right behind.
pub open spec fn encode_entries(entries: Seq<(Seq<u8>, WireValue)>, n: nat) -> Seq<u8>
    decreases entries, n,
{
    if n == 0 || n > entries.len() {
        Seq::empty()
    } else {
        encode_entries(entries, (n - 1) as nat) + encode_byte_string(entries[n - 1].0) + encode(entries[n - 1].1)
    }
}

/// The value that stands in `bytes` at `pos` by the grammar, whatever its
/// kind, and the position just behind it; nothing where none stands there.
pub open spec fn parse(bytes: Seq<u8>, pos: int) -> Option<(WireValue, int)>
    decreases bytes.len() - pos, 0nat,
{
    if !(0 <= pos < bytes.len()) {
        None
    } else if bytes[pos] == OPEN_INTEGER {
        match signed(bytes, pos) {
            Ok((v, end)) => Some((WireValue::Integer(v), end)),
            Err(_) => None,
        }
    } else if is_digit(bytes[pos]) {
        match byte_string(bytes, pos) {
            Ok((content, end)) => Some((WireValue::Bytes(content), end)),
            Err(_) => None,
        }
    } else if bytes[pos] == OPEN_LIST {
        match parse_items(bytes, pos + 1) {
            Some((items, end)) => Some((WireValue::List(items), end + 1)),
            None => None,
        }
    } else if bytes[pos] == OPEN_DICT {
        match parse_entries(bytes, pos + 1) {
            Some((entries, end)) => Some((WireValue::Dict(entries), end + 1)),
            None => None,
        }
    } else {
        None
    }
}

/// The values that stand in `bytes` from `pos` on up to the `e` that closes
/// their list, and the position of that `e`.
pub open spec fn parse_items(bytes: Seq<u8>, pos: int) -> Option<(Seq<WireValue>, int)>
    decreases bytes.len() - pos, 1nat,
{
    if !(0 <= pos < bytes.len()) {
        None
    } else if bytes[pos] == CLOSE {
        Some((Seq::empty(), pos))
    } else {
        match parse(bytes, pos) {
            Some((first, next)) => if pos < next <= bytes.len() {
                match parse_items(bytes, next) {
                    Some((rest, end)) => Some((seq![first] + rest, end)),
                    None => None,
                }
            } else {
                None
            },
            None => None,
        }
    }
}

/// The entries that stand in `bytes` from `pos` on up to the `e` that closes
/// their dictionary, each a byte string and a value, and the position of
/// that `e`.
pub open spec fn parse_entries(bytes: Seq<u8>, pos: int) -> Option<(Seq<(Seq<u8>, WireValue)>, int)>
    decreases bytes.len() - pos, 1nat,
{
    if !(0 <= pos < bytes.len()) {
        None
    } else if bytes[pos] == CLOSE {
        Some((Seq::empty(), pos))
    } else {
        match byte_string(bytes, pos) {
            Ok((key, middle)) => if pos < middle {
                match parse(bytes, middle) {
                    Some((value, next)) => if middle < next <= bytes.len() {
                        match parse_entries(bytes, next) {
                            Some((rest, end)) => Some((seq![(key, value)] + rest, end)),
                            None => None,
                        }
                    } else {
                        None
                    },
                    None => None,
                }
            } else {
                None
            },
            Err(_) => None,
        }
    }
}

/// A run of digits that stops at `end` is as long as `digit_run` says.
pub proof fn lemma_digit_run(bytes: Seq<u8>, start: int, end: int)
    requires
        0 <= start <= end <= bytes.len(),
        forall|i: int| start <= i < end ==> is_digit(#[trigger] bytes[i]),
        end == bytes.len() || !is_digit(bytes[end]),
    ensures
        start + digit_run(bytes, start) == end,
    decreases end - start,
{
    if start < end {
        lemma_digit_run(bytes, start + 1, end);
    }
}

/// One more digit multiplies what came before by ten and adds the digit.
pub proof fn lemma_digits_value_step(bytes: Seq<u8>, start: int, end: int)
    requires
        0 <= start <= end < bytes.len(),
    ensures
        digits_value(bytes.subrange(start, end + 1)) == digits_value(bytes.subrange(start, end)) * 10
            + (bytes[end] - ZERO) as nat,
{
    assert(bytes.subrange(start, end + 1).drop_last() =~= bytes.subrange(start, end));
}

/// The decimal digits of a number are digits, and there is at least one.
pub proof fn lemma_decimal_digits(n: nat)
    ensures
        decimal(n).len() >= 1,
        forall|i: int| 0 <= i < decimal(n).len() ==> is_digit(#[trigger] decimal(n)[i]),
    decreases n,
{
    if n >= 10 {
        lemma_decimal_digits(n / 10);
    }
}

/// The decimal digits of a number denote that number.
pub proof fn lemma_decimal_value(n: nat)
    ensures
        digits_value(decimal(n)) == n,
    decreases n,
{
    reveal_with_fuel(digits_value, 2);
    if n >= 10 {
        lemma_decimal_value(n / 10);
        assert(decimal(n).drop_last() =~= decimal(n / 10));
    } else {
        assert(decimal(n).drop_last() =~= Seq::<u8>::empty());
    }
}

/// An integer that was written is read back as it was, whatever stands
/// around it: where the bytes of `v` stand in `bytes` at `pos`, a parse of an
/// integer at `pos` gives `v` and ends just behind them.
pub proof fn lemma_integer_round_trip(bytes: Seq<u8>, pos: int, v: int)
    requires
        0 <= pos,
        pos + encode_integer(v).len() <= bytes.len(),
        bytes.subrange(pos, pos + encode_integer(v).len()) == encode_integer(v),
    ensures
        signed(bytes, pos) == Ok::<(int, int), Error>((v, pos + encode_integer(v).len())),
{
    let written = encode_integer(v);
    let part = bytes.subrange(pos, pos + written.len());
    let magnitude = if v < 0 { (-v) as nat } else { v as nat };
    let digits = decimal(magnitude);
    let start = if v < 0 { pos + 2 } else { pos + 1 };
    let end = start + digits.len();
    lemma_decimal_digits(magnitude);
    lemma_decimal_value(magnitude);
    assert(bytes[pos] == part[0]);
    assert(bytes[pos + 1] == part[1]);
    assert(bytes[end] == part[end - pos]);
    assert forall|i: int| start <= i < end implies is_digit(#[trigger] bytes[i]) by {
        assert(bytes[i] == part[i - pos]);
        assert(written[i - pos] == digits[i - start]);
    }
    assert(is_digit(bytes[start]));
    lemma_digit_run(bytes, start, end);
    assert(bytes.subrange(start, end) =~= digits) by {
        assert forall|i: int| 0 <= i < digits.len() implies bytes.subrange(start, end)[i] == digits[i] by {
            assert(bytes[start + i] == part[start + i - pos]);
        }
    }
}

/// A byte string that was written is read back as it was, whatever stands
/// around it: where the bytes of `content` stand in `bytes` at `pos`, a parse
/// of a byte string at `pos` gives `content` and ends just behind them.
pub proof fn lemma_byte_string_round_trip(bytes: Seq<u8>, pos: int, content: Seq<u8>)
    requires
        0 <= pos,
        pos + encode_byte_string(content).len() <= bytes.len(),
        bytes.subrange(pos, pos + encode_byte_string(content).len()) == encode_byte_string(content),
    ensures
        byte_string(bytes, pos) == Ok::<(Seq<u8>, int), Error>(
            (content, pos + encode_byte_string(content).len()),
        ),
{
    let written = encode_byte_string(content);
    let part = bytes.subrange(pos, pos + written.len());
    let digits = decimal(content.len());
    let end = pos + digits.len();
    lemma_decimal_digits(content.len());
    lemma_decimal_value(content.len());
    assert(bytes[pos] == part[0]);
    assert(bytes[end] == part[end - pos]);
    assert forall|i: int| pos <= i < end implies is_digit(#[trigger] bytes[i]) by {
        assert(bytes[i] == part[i - pos]);
        assert(written[i - pos] == digits[i - pos]);
    }
    lemma_digit_run(bytes, pos, end);
    assert(bytes.subrange(pos, end) =~= digits) by {
        assert forall|i: int| 0 <= i < digits.len() implies bytes.subrange(pos, end)[i] == digits[i] by {
            assert(bytes[pos + i] == part[i]);
        }
    }
    assert(bytes.subrange(end + 1, end + 1 + content.len()) =~= content) by {
        assert forall|i: int| 0 <= i < content.len() implies bytes.subrange(end + 1, end + 1 + content.len())[i]
            == content[i] by {
            assert(bytes[end + 1 + i] == part[end + 1 + i - pos]);
        }
    }
}

/// What is written of a byte string is a byte string.
pub proof fn lemma_written_is_byte_string(content: Seq<u8>)
    ensures
        is_byte_string(encode_byte_string(content)),
{
    let written = encode_byte_string(content);
    assert(written.subrange(0, written.len() as int) =~= written);
    lemma_byte_string_round_trip(written, 0, content);
}

} // verus!
