//! The decoder: a cursor over the input and the parsers of the grammar.

use core::marker::PhantomData;
use vstd::prelude::*;
use vstd::string::StringSliceAdditionalSpecFns;
use crate::error::Error;
use crate::read::{Read, SliceRead};
use crate::wire;
use crate::wire::WireValue;

verus! {

/// The largest magnitude that an integer on the wire may have: that of the
/// smallest `i64`.
const MAGNITUDE_LIMIT: u64 = 0x8000_0000_0000_0000;

fn is_digit(b: u8) -> (r: bool)
    ensures
        r == wire::is_digit(b),
{
    wire::ZERO <= b && b <= wire::ZERO + 9
}

/// A decoder over one input. It owns the input source and has no other state.
pub struct Deserializer<'de> {
    read: SliceRead<'de>,
}

impl<'de> Deserializer<'de> {
    /// The whole input.
    pub closed spec fn bytes(&self) -> Seq<u8> {
        self.read.bytes()
    }

    /// The index of the next byte to be read.
    pub closed spec fn pos(&self) -> int {
        self.read.pos()
    }

    /// A decoder at the start of the bytes of `input`.
    pub fn from_str(input: &'de str) -> (r: Self)
        ensures
            r.bytes() == input.spec_bytes(),
            r.pos() == 0,
    {
        Deserializer { read: SliceRead::new(input.as_bytes()) }
    }

    /// A decoder at the start of `input`.
    pub fn from_bytes(input: &'de [u8]) -> (r: Self)
        ensures
            r.bytes() == input@,
            r.pos() == 0,
    {
        Deserializer { read: SliceRead::new(input) }
    }

    /// Looks at the next byte without consuming it.
    pub fn peek_char(&mut self) -> (r: Result<u8, Error>)
        ensures
            final(self).bytes() == old(self).bytes(),
            final(self).pos() == old(self).pos(),
            0 <= old(self).pos() <= old(self).bytes().len() <= usize::MAX,
            r == wire::byte_at(old(self).bytes(), old(self).pos()),
    {
        self.read.peek()
    }

    /// Consumes the next byte.
    pub fn next_char(&mut self) -> (r: Result<u8, Error>)
        ensures
            final(self).bytes() == old(self).bytes(),
            0 <= old(self).pos() <= old(self).bytes().len() <= usize::MAX,
            r == wire::byte_at(old(self).bytes(), old(self).pos()),
            final(self).pos() == old(self).pos() + if r is Ok { 1int } else { 0 },
    {
        let ch: u8 = self.peek_char()?;
        let _ = self.read.next();
        Ok(ch)
    }

    /// Parses an integer: `i`, an optional `-`, one digit or more, `e`.
    ///
    /// Leading zeros are read as digits like any other. An integer outside the
    /// range of `i64` fails with `ExpectedInteger`.
    pub fn parse_signed(&mut self) -> (r: Result<i64, Error>)
        ensures
            final(self).bytes() == old(self).bytes(),
            old(self).pos() <= final(self).pos() <= old(self).bytes().len(),
            match wire::integer(old(self).bytes(), old(self).pos(), i64::MIN as int, i64::MAX as int) {
                Ok((v, end)) => r == Ok::<i64, Error>(v as i64) && final(self).pos() == end,
                Err(e) => r == Err::<i64, Error>(e),
            },
    {
        let ghost bytes = self.bytes();
        if self.next_char()? != wire::OPEN_INTEGER {
            return Err(Error::ExpectedI);
        }
        let first: u8 = self.next_char()?;
        let negative = first == wire::MINUS;
        let lead: u8 = if negative { self.next_char()? } else { first };
        if !is_digit(lead) {
            return Err(Error::ExpectedInteger);
        }
        let ghost start = self.pos() - 1;
        let mut magnitude: u64 = (lead - wire::ZERO) as u64;
        let mut fits = true;
        let mut scanning = true;
        proof {
            reveal_with_fuel(wire::digits_value, 2);
            assert(bytes.subrange(start, start + 1).drop_last() =~= Seq::<u8>::empty());
        }
        while scanning
            invariant
                self.bytes() == bytes,
                0 <= start < self.pos() <= bytes.len(),
                forall|i: int| start <= i < self.pos() ==> wire::is_digit(#[trigger] bytes[i]),
                fits ==> magnitude == wire::digits_value(bytes.subrange(start, self.pos())),
                fits ==> magnitude <= MAGNITUDE_LIMIT,
                !fits ==> wire::digits_value(bytes.subrange(start, self.pos())) > MAGNITUDE_LIMIT,
                !scanning ==> self.pos() == bytes.len() || !wire::is_digit(bytes[self.pos()]),
            decreases bytes.len() - self.pos() + if scanning { 1int } else { 0 },
        {
            let ghost at = self.pos();
            match self.peek_char() {
                Ok(ch) => {
                    if is_digit(ch) {
                        let _ = self.next_char();
                        proof {
                            wire::lemma_digits_value_step(bytes, start, at);
                        }
                        let digit: u64 = (ch - wire::ZERO) as u64;
                        if fits && magnitude <= (MAGNITUDE_LIMIT - digit) / 10 {
                            magnitude = magnitude * 10 + digit;
                        } else {
                            fits = false;
                        }
                    } else {
                        scanning = false;
                    }
                },
                Err(_) => {
                    scanning = false;
                },
            }
        }
        proof {
            wire::lemma_digit_run(bytes, start, self.pos());
        }
        match self.peek_char() {
            Ok(ch) => {
                if ch != wire::CLOSE {
                    return Err(Error::UnexpectedChar);
                }
                let _ = self.next_char();
            },
            Err(_) => {
                return Err(Error::UnexpectedChar);
            },
        }
        if !fits {
            Err(Error::ExpectedInteger)
        } else if negative {
            if magnitude == MAGNITUDE_LIMIT {
                Ok(i64::MIN)
            } else {
                Ok(-(magnitude as i64))
            }
        } else if magnitude == MAGNITUDE_LIMIT {
            Err(Error::ExpectedInteger)
        } else {
            Ok(magnitude as i64)
        }
    }

    /// Parses a length prefix: one digit or more, `:`.
    ///
    /// A `:` with no digit before it fails with `ExpectedInteger`, and any
    /// other byte that is no digit, at the start or behind the digits, with
    /// `ExpectedColon`. A length that does not fit in `usize` cannot be had
    /// from any input, so it fails as a read of that length would, with
    /// `BufferTooShort`.
    fn parse_length(&mut self) -> (r: Result<usize, Error>)
        ensures
            final(self).bytes() == old(self).bytes(),
            old(self).pos() <= final(self).pos() <= old(self).bytes().len() <= usize::MAX,
            match wire::length(old(self).bytes(), old(self).pos()) {
                Ok((n, start)) => if n <= usize::MAX {
                    r == Ok::<usize, Error>(n as usize) && final(self).pos() == start
                } else {
                    r == Err::<usize, Error>(Error::BufferTooShort)
                },
                Err(e) => r == Err::<usize, Error>(e),
            },
    {
        let ghost bytes = self.bytes();
        let lead: u8 = self.next_char()?;
        if lead == wire::COLON {
            return Err(Error::ExpectedInteger);
        }
        if !is_digit(lead) {
            return Err(Error::ExpectedColon);
        }
        let ghost start = self.pos() - 1;
        let mut len: usize = (lead - wire::ZERO) as usize;
        let mut fits = true;
        let mut scanning = true;
        proof {
            reveal_with_fuel(wire::digits_value, 2);
            assert(bytes.subrange(start, start + 1).drop_last() =~= Seq::<u8>::empty());
        }
        while scanning
            invariant
                self.bytes() == bytes,
                0 <= start < self.pos() <= bytes.len() <= usize::MAX,
                forall|i: int| start <= i < self.pos() ==> wire::is_digit(#[trigger] bytes[i]),
                fits ==> len == wire::digits_value(bytes.subrange(start, self.pos())),
                !fits ==> wire::digits_value(bytes.subrange(start, self.pos())) > usize::MAX,
                !scanning ==> self.pos() == bytes.len() || !wire::is_digit(bytes[self.pos()]),
            decreases bytes.len() - self.pos() + if scanning { 1int } else { 0 },
        {
            let ghost at = self.pos();
            match self.peek_char() {
                Ok(ch) => {
                    if is_digit(ch) {
                        let _ = self.next_char();
                        proof {
                            wire::lemma_digits_value_step(bytes, start, at);
                        }
                        let digit: usize = (ch - wire::ZERO) as usize;
                        if fits && len <= (usize::MAX - digit) / 10 {
                            len = len * 10 + digit;
                        } else {
                            fits = false;
                        }
                    } else {
                        scanning = false;
                    }
                },
                Err(_) => {
                    scanning = false;
                },
            }
        }
        proof {
            wire::lemma_digit_run(bytes, start, self.pos());
        }
        match self.peek_char() {
            Ok(ch) => {
                if ch != wire::COLON {
                    return Err(Error::ExpectedColon);
                }
                let _ = self.next_char();
            },
            Err(_) => {
                return Err(Error::ExpectedColon);
            },
        }
        if fits {
            Ok(len)
        } else {
            Err(Error::BufferTooShort)
        }
    }

    /// Parses a text: a length prefix, then that many bytes, which have to be
    /// valid UTF-8. The text is borrowed from the input, not copied.
    pub fn parse_string(&mut self) -> (r: Result<&'de str, Error>)
        ensures
            final(self).bytes() == old(self).bytes(),
            old(self).pos() <= final(self).pos() <= old(self).bytes().len(),
            match wire::text(old(self).bytes(), old(self).pos()) {
                Ok((content, end)) => r is Ok && r.unwrap().spec_bytes() == content && final(self).pos() == end,
                Err(e) => r == Err::<&str, Error>(e),
            },
    {
        let len: usize = self.parse_length()?;
        self.read.read_str(len)
    }

    /// Parses a byte string: a length prefix, then that many bytes. The bytes
    /// are borrowed from the input, not copied.
    pub fn parse_bytes(&mut self) -> (r: Result<&'de [u8], Error>)
        ensures
            final(self).bytes() == old(self).bytes(),
            old(self).pos() <= final(self).pos() <= old(self).bytes().len(),
            match wire::byte_string(old(self).bytes(), old(self).pos()) {
                Ok((content, end)) => r is Ok && r.unwrap()@ == content && final(self).pos() == end,
                Err(e) => r == Err::<&[u8], Error>(e),
            },
    {
        let len: usize = self.parse_length()?;
        self.read.read_bytes(len)
    }

    /// Checks that the input is used up: `TrailingCharacters` where it is not.
    pub fn end(&mut self) -> (r: Result<(), Error>)
        ensures
            final(self).bytes() == old(self).bytes(),
            final(self).pos() == old(self).pos(),
            0 <= old(self).pos() <= old(self).bytes().len(),
            r == if old(self).pos() == old(self).bytes().len() {
                Ok::<(), Error>(())
            } else {
                Err::<(), Error>(Error::TrailingCharacters)
            },
    {
        match self.peek_char() {
            Ok(_) => Err(Error::TrailingCharacters),
            Err(_) => Ok(()),
        }
    }

    /// Parses an integer that has to lie between `low` and `high`.
    fn parse_ranged(&mut self, low: i64, high: i64) -> (r: Result<i64, Error>)
        ensures
            advanced(*old(self), *final(self)),
            match wire::integer(old(self).bytes(), old(self).pos(), low as int, high as int) {
                Ok((v, end)) => r == Ok::<i64, Error>(v as i64) && final(self).pos() == end,
                Err(e) => r == Err::<i64, Error>(e),
            },
    {
        let v: i64 = self.parse_signed()?;
        if low <= v && v <= high {
            Ok(v)
        } else {
            Err(Error::ExpectedInteger)
        }
    }

    /// Decodes whatever kind of value comes next, going by its first byte:
    /// `d` opens a dictionary and a digit opens a text. Any other byte fails
    /// with `Syntax`: integers and lists are decoded only where they are
    /// asked for.
    ///
    /// The first byte is looked at, not consumed: where it opens neither, or
    /// where there is none, the cursor stays and the visitor is not called.
    pub fn deserialize_any<V, Vis: Visitor<'de, V>>(&mut self, visitor: Vis) -> (r: Result<V, Error>)
        ensures
            advanced(*old(self), *final(self)),
            !opens_known_kind(old(self).bytes(), old(self).pos()) ==> final(self).pos() == old(self).pos(),
            match any_decoding(&visitor, old(self).bytes(), old(self).pos()) {
                Ok((value, end)) => {
                    &&& r is Ok
                    &&& Vis::model(&r.unwrap()) == value
                    &&& consumed(*old(self), *final(self), end)
                },
                Err(e) => r == Err::<V, Error>(e),
            },
    {
        let ch: u8 = self.peek_char()?;
        if ch == wire::OPEN_DICT {
            self.deserialize_map(visitor)
        } else if is_digit(ch) {
            self.deserialize_str(visitor)
        } else {
            Err(Error::Syntax)
        }
    }

    /// Decodes a dictionary: `d`, then the entries, which `visitor` reads one
    /// after the other, then `e`.
    ///
    /// Fails with `ExpectedMap` where the first byte is not `d`, and with
    /// `ExpectedMapEnd` where `visitor` stops before the closing `e`.
    pub fn deserialize_map<V, Vis: Visitor<'de, V>>(&mut self, visitor: Vis) -> (r: Result<V, Error>)
        ensures
            advanced(*old(self), *final(self)),
            match dict_decoding(&visitor, old(self).bytes(), old(self).pos()) {
                Ok((value, end)) => {
                    &&& r is Ok
                    &&& Vis::model(&r.unwrap()) == value
                    &&& consumed(*old(self), *final(self), end)
                },
                Err(e) => r == Err::<V, Error>(e),
            },
    {
        if self.next_char()? == wire::OPEN_DICT {
            let value = visitor.visit_map(ColonSeparated::new(self))?;
            if self.next_char()? == wire::CLOSE {
                Ok(value)
            } else {
                Err(Error::ExpectedMapEnd)
            }
        } else {
            Err(Error::ExpectedMap)
        }
    }

    /// Decodes a list: `l`, then the elements, which `visitor` reads one after
    /// the other, then `e`.
    ///
    /// Fails with `ExpectedList` where the first byte is not `l`, and with
    /// `ExpectedListEnd` where `visitor` stops before the closing `e`.
    pub fn deserialize_seq<V, Vis: Visitor<'de, V>>(&mut self, visitor: Vis) -> (r: Result<V, Error>)
        ensures
            advanced(*old(self), *final(self)),
            match list_decoding(&visitor, old(self).bytes(), old(self).pos()) {
                Ok((value, end)) => {
                    &&& r is Ok
                    &&& Vis::model(&r.unwrap()) == value
                    &&& consumed(*old(self), *final(self), end)
                },
                Err(e) => r == Err::<V, Error>(e),
            },
    {
        if self.next_char()? == wire::OPEN_LIST {
            let value = visitor.visit_seq(ColonSeparated::new(self))?;
            if self.next_char()? == wire::CLOSE {
                Ok(value)
            } else {
                Err(Error::ExpectedListEnd)
            }
        } else {
            Err(Error::ExpectedList)
        }
    }

    /// Decodes a record, which stands on the wire as a dictionary whose keys
    /// are the names of its fields. Which fields there are, and in what
    /// order, is for `visitor` to say.
    pub fn deserialize_struct<V, Vis: Visitor<'de, V>>(
        &mut self,
        _name: &'static str,
        _fields: &'static [&'static str],
        visitor: Vis,
    ) -> (r: Result<V, Error>)
        ensures
            advanced(*old(self), *final(self)),
            match dict_decoding(&visitor, old(self).bytes(), old(self).pos()) {
                Ok((value, end)) => {
                    &&& r is Ok
                    &&& Vis::model(&r.unwrap()) == value
                    &&& consumed(*old(self), *final(self), end)
                },
                Err(e) => r == Err::<V, Error>(e),
            },
    {
        self.deserialize_map(visitor)
    }

    /// Decodes an integer that fits in `i8`.
    pub fn deserialize_i8<V, Vis: Visitor<'de, V>>(&mut self, visitor: Vis) -> (r: Result<V, Error>)
        ensures
            advanced(*old(self), *final(self)),
            match integer_decoding(&visitor, old(self).bytes(), old(self).pos(), i8::MIN as int, i8::MAX as int) {
                Ok((value, end)) => {
                    &&& r is Ok
                    &&& Vis::model(&r.unwrap()) == value
                    &&& consumed(*old(self), *final(self), end)
                },
                Err(e) => r == Err::<V, Error>(e),
            },
    {
        visitor.visit_i8(self.parse_ranged(i8::MIN as i64, i8::MAX as i64)? as i8)
    }

    /// Decodes an integer that fits in `i16`.
    pub fn deserialize_i16<V, Vis: Visitor<'de, V>>(&mut self, visitor: Vis) -> (r: Result<V, Error>)
        ensures
            advanced(*old(self), *final(self)),
            match integer_decoding(&visitor, old(self).bytes(), old(self).pos(), i16::MIN as int, i16::MAX as int) {
                Ok((value, end)) => {
                    &&& r is Ok
                    &&& Vis::model(&r.unwrap()) == value
                    &&& consumed(*old(self), *final(self), end)
                },
                Err(e) => r == Err::<V, Error>(e),
            },
    {
        visitor.visit_i16(self.parse_ranged(i16::MIN as i64, i16::MAX as i64)? as i16)
    }

    /// Decodes an integer that fits in `i32`.
    pub fn deserialize_i32<V, Vis: Visitor<'de, V>>(&mut self, visitor: Vis) -> (r: Result<V, Error>)
        ensures
            advanced(*old(self), *final(self)),
            match integer_decoding(&visitor, old(self).bytes(), old(self).pos(), i32::MIN as int, i32::MAX as int) {
                Ok((value, end)) => {
                    &&& r is Ok
                    &&& Vis::model(&r.unwrap()) == value
                    &&& consumed(*old(self), *final(self), end)
                },
                Err(e) => r == Err::<V, Error>(e),
            },
    {
        visitor.visit_i32(self.parse_ranged(i32::MIN as i64, i32::MAX as i64)? as i32)
    }

    /// Decodes an integer that fits in `i64`.
    pub fn deserialize_i64<V, Vis: Visitor<'de, V>>(&mut self, visitor: Vis) -> (r: Result<V, Error>)
        ensures
            advanced(*old(self), *final(self)),
            match integer_decoding(&visitor, old(self).bytes(), old(self).pos(), i64::MIN as int, i64::MAX as int) {
                Ok((value, end)) => {
                    &&& r is Ok
                    &&& Vis::model(&r.unwrap()) == value
                    &&& consumed(*old(self), *final(self), end)
                },
                Err(e) => r == Err::<V, Error>(e),
            },
    {
        visitor.visit_i64(self.parse_signed()?)
    }

    /// Decodes a text and hands it on as it stands in the input.
    pub fn deserialize_str<V, Vis: Visitor<'de, V>>(&mut self, visitor: Vis) -> (r: Result<V, Error>)
        ensures
            advanced(*old(self), *final(self)),
            match text_decoding(&visitor, old(self).bytes(), old(self).pos()) {
                Ok((value, end)) => {
                    &&& r is Ok
                    &&& Vis::model(&r.unwrap()) == value
                    &&& consumed(*old(self), *final(self), end)
                },
                Err(e) => r == Err::<V, Error>(e),
            },
    {
        visitor.visit_borrowed_str(self.parse_string()?)
    }

    /// Decodes a text for a value that will own it.
    pub fn deserialize_string<V, Vis: Visitor<'de, V>>(&mut self, visitor: Vis) -> (r: Result<V, Error>)
        ensures
            advanced(*old(self), *final(self)),
            match text_decoding(&visitor, old(self).bytes(), old(self).pos()) {
                Ok((value, end)) => {
                    &&& r is Ok
                    &&& Vis::model(&r.unwrap()) == value
                    &&& consumed(*old(self), *final(self), end)
                },
                Err(e) => r == Err::<V, Error>(e),
            },
    {
        self.deserialize_str(visitor)
    }

    /// Decodes the name of a field, which is a text.
    pub fn deserialize_identifier<V, Vis: Visitor<'de, V>>(&mut self, visitor: Vis) -> (r: Result<V, Error>)
        ensures
            advanced(*old(self), *final(self)),
            match text_decoding(&visitor, old(self).bytes(), old(self).pos()) {
                Ok((value, end)) => {
                    &&& r is Ok
                    &&& Vis::model(&r.unwrap()) == value
                    &&& consumed(*old(self), *final(self), end)
                },
                Err(e) => r == Err::<V, Error>(e),
            },
    {
        self.deserialize_str(visitor)
    }

    /// Decodes a byte string and hands it on as it stands in the input.
    pub fn deserialize_bytes<V, Vis: Visitor<'de, V>>(&mut self, visitor: Vis) -> (r: Result<V, Error>)
        ensures
            advanced(*old(self), *final(self)),
            match bytes_decoding(&visitor, old(self).bytes(), old(self).pos()) {
                Ok((value, end)) => {
                    &&& r is Ok
                    &&& Vis::model(&r.unwrap()) == value
                    &&& consumed(*old(self), *final(self), end)
                },
                Err(e) => r == Err::<V, Error>(e),
            },
    {
        visitor.visit_borrowed_bytes(self.parse_bytes()?)
    }

    /// Decodes a value that nobody will look at, like `deserialize_any`.
    pub fn deserialize_ignored_any<V, Vis: Visitor<'de, V>>(&mut self, visitor: Vis) -> (r: Result<V, Error>)
        ensures
            advanced(*old(self), *final(self)),
            !opens_known_kind(old(self).bytes(), old(self).pos()) ==> final(self).pos() == old(self).pos(),
            match any_decoding(&visitor, old(self).bytes(), old(self).pos()) {
                Ok((value, end)) => {
                    &&& r is Ok
                    &&& Vis::model(&r.unwrap()) == value
                    &&& consumed(*old(self), *final(self), end)
                },
                Err(e) => r == Err::<V, Error>(e),
            },
    {
        self.deserialize_any(visitor)
    }

    /// Refuses to decode a truth value, which this encoding does not have.
    pub fn deserialize_bool<V, Vis: Visitor<'de, V>>(&mut self, _visitor: Vis) -> (r: Result<V, Error>)
        ensures
            *final(self) == *old(self),
            r == Err::<V, Error>(Error::UnsupportedKind),
    {
        Err(Error::UnsupportedKind)
    }

    /// Refuses to decode an unsigned integer of eight bits, which this encoding does not have.
    pub fn deserialize_u8<V, Vis: Visitor<'de, V>>(&mut self, _visitor: Vis) -> (r: Result<V, Error>)
        ensures
            *final(self) == *old(self),
            r == Err::<V, Error>(Error::UnsupportedKind),
    {
        Err(Error::UnsupportedKind)
    }

    /// Refuses to decode an unsigned integer of sixteen bits, which this encoding does not have.
    pub fn deserialize_u16<V, Vis: Visitor<'de, V>>(&mut self, _visitor: Vis) -> (r: Result<V, Error>)
        ensures
            *final(self) == *old(self),
            r == Err::<V, Error>(Error::UnsupportedKind),
    {
        Err(Error::UnsupportedKind)
    }

    /// Refuses to decode an unsigned integer of thirty-two bits, which this encoding does not have.
    pub fn deserialize_u32<V, Vis: Visitor<'de, V>>(&mut self, _visitor: Vis) -> (r: Result<V, Error>)
        ensures
            *final(self) == *old(self),
            r == Err::<V, Error>(Error::UnsupportedKind),
    {
        Err(Error::UnsupportedKind)
    }

    /// Refuses to decode an unsigned integer of sixty-four bits, which this encoding does not have.
    pub fn deserialize_u64<V, Vis: Visitor<'de, V>>(&mut self, _visitor: Vis) -> (r: Result<V, Error>)
        ensures
            *final(self) == *old(self),
            r == Err::<V, Error>(Error::UnsupportedKind),
    {
        Err(Error::UnsupportedKind)
    }

    /// Refuses to decode a number with a fraction of thirty-two bits, which
    /// this encoding does not have.
    pub fn deserialize_f32<V, Vis: Visitor<'de, V>>(&mut self, _visitor: Vis) -> (r: Result<V, Error>)
        ensures
            *final(self) == *old(self),
            r == Err::<V, Error>(Error::UnsupportedKind),
    {
        Err(Error::UnsupportedKind)
    }

    /// Refuses to decode a number with a fraction of sixty-four bits, which
    /// this encoding does not have.
    pub fn deserialize_f64<V, Vis: Visitor<'de, V>>(&mut self, _visitor: Vis) -> (r: Result<V, Error>)
        ensures
            *final(self) == *old(self),
            r == Err::<V, Error>(Error::UnsupportedKind),
    {
        Err(Error::UnsupportedKind)
    }

    /// Refuses to decode a single character, which this encoding does not have.
    pub fn deserialize_char<V, Vis: Visitor<'de, V>>(&mut self, _visitor: Vis) -> (r: Result<V, Error>)
        ensures
            *final(self) == *old(self),
            r == Err::<V, Error>(Error::UnsupportedKind),
    {
        Err(Error::UnsupportedKind)
    }

    /// Refuses to decode a byte string that the value would own, which this encoding does not have.
    pub fn deserialize_byte_buf<V, Vis: Visitor<'de, V>>(&mut self, _visitor: Vis) -> (r: Result<V, Error>)
        ensures
            *final(self) == *old(self),
            r == Err::<V, Error>(Error::UnsupportedKind),
    {
        Err(Error::UnsupportedKind)
    }

    /// Refuses to decode a value that may be missing, which this encoding does not have.
    pub fn deserialize_option<V, Vis: Visitor<'de, V>>(&mut self, _visitor: Vis) -> (r: Result<V, Error>)
        ensures
            *final(self) == *old(self),
            r == Err::<V, Error>(Error::UnsupportedKind),
    {
        Err(Error::UnsupportedKind)
    }

    /// Refuses to decode the empty value, which this encoding does not have.
    pub fn deserialize_unit<V, Vis: Visitor<'de, V>>(&mut self, _visitor: Vis) -> (r: Result<V, Error>)
        ensures
            *final(self) == *old(self),
            r == Err::<V, Error>(Error::UnsupportedKind),
    {
        Err(Error::UnsupportedKind)
    }

    /// Refuses to decode a record without fields, which this encoding does not have.
    pub fn deserialize_unit_struct<V, Vis: Visitor<'de, V>>(&mut self, _name: &'static str, _visitor: Vis) -> (r: Result<V, Error>)
        ensures
            *final(self) == *old(self),
            r == Err::<V, Error>(Error::UnsupportedKind),
    {
        Err(Error::UnsupportedKind)
    }

    /// Refuses to decode a record around one value, which this encoding does not have.
    pub fn deserialize_newtype_struct<V, Vis: Visitor<'de, V>>(&mut self, _name: &'static str, _visitor: Vis) -> (r: Result<V, Error>)
        ensures
            *final(self) == *old(self),
            r == Err::<V, Error>(Error::UnsupportedKind),
    {
        Err(Error::UnsupportedKind)
    }

    /// Refuses to decode a tuple, which this encoding does not have.
    pub fn deserialize_tuple<V, Vis: Visitor<'de, V>>(&mut self, _len: usize, _visitor: Vis) -> (r: Result<V, Error>)
        ensures
            *final(self) == *old(self),
            r == Err::<V, Error>(Error::UnsupportedKind),
    {
        Err(Error::UnsupportedKind)
    }

    /// Refuses to decode a record of unnamed fields, which this encoding does not have.
    pub fn deserialize_tuple_struct<V, Vis: Visitor<'de, V>>(&mut self, _name: &'static str, _len: usize, _visitor: Vis) -> (r: Result<V, Error>)
        ensures
            *final(self) == *old(self),
            r == Err::<V, Error>(Error::UnsupportedKind),
    {
        Err(Error::UnsupportedKind)
    }

    /// Refuses to decode one of several variants, which this encoding does not have.
    pub fn deserialize_enum<V, Vis: Visitor<'de, V>>(&mut self, _name: &'static str, _variants: &'static [&'static str], _visitor: Vis) -> (r: Result<V, Error>)
        ensures
            *final(self) == *old(self),
            r == Err::<V, Error>(Error::UnsupportedKind),
    {
        Err(Error::UnsupportedKind)
    }
}

/// What decoding an integer between `low` and `high` for `visitor` gives.
pub open spec fn integer_decoding<'de, V, Vis: Visitor<'de, V>>(
    visitor: &Vis,
    bytes: Seq<u8>,
    pos: int,
    low: int,
    high: int,
) -> Result<(WireValue, int), Error> {
    match wire::integer(bytes, pos, low, high) {
        Ok((v, end)) => match visitor.on_integer(v) {
            Ok(value) => Ok((value, end)),
            Err(e) => Err(e),
        },
        Err(e) => Err(e),
    }
}

/// What decoding a text for `visitor` gives.
pub open spec fn text_decoding<'de, V, Vis: Visitor<'de, V>>(visitor: &Vis, bytes: Seq<u8>, pos: int) -> Result<
    (WireValue, int),
    Error,
> {
    match wire::text(bytes, pos) {
        Ok((content, end)) => match visitor.on_text(content) {
            Ok(value) => Ok((value, end)),
            Err(e) => Err(e),
        },
        Err(e) => Err(e),
    }
}

/// What decoding a byte string for `visitor` gives.
pub open spec fn bytes_decoding<'de, V, Vis: Visitor<'de, V>>(visitor: &Vis, bytes: Seq<u8>, pos: int) -> Result<
    (WireValue, int),
    Error,
> {
    match wire::byte_string(bytes, pos) {
        Ok((content, end)) => match visitor.on_bytes(content) {
            Ok(value) => Ok((value, end)),
            Err(e) => Err(e),
        },
        Err(e) => Err(e),
    }
}

/// What decoding a list for `visitor` gives: `l`, what `visitor` makes of
/// the elements, `e`.
pub open spec fn list_decoding<'de, V, Vis: Visitor<'de, V>>(visitor: &Vis, bytes: Seq<u8>, pos: int) -> Result<
    (WireValue, int),
    Error,
> {
    match wire::byte_at(bytes, pos) {
        Err(e) => Err(e),
        Ok(open) => if open != wire::OPEN_LIST {
            Err(Error::ExpectedList)
        } else {
            match visitor.on_list(bytes, pos + 1) {
                Err(e) => Err(e),
                Ok((value, end)) => match wire::byte_at(bytes, end) {
                    Err(e) => Err(e),
                    Ok(close) => if close != wire::CLOSE {
                        Err(Error::ExpectedListEnd)
                    } else {
                        Ok((value, end + 1))
                    },
                },
            }
        },
    }
}

/// What decoding a dictionary for `visitor` gives: `d`, what `visitor` makes
/// of the entries, `e`.
pub open spec fn dict_decoding<'de, V, Vis: Visitor<'de, V>>(visitor: &Vis, bytes: Seq<u8>, pos: int) -> Result<
    (WireValue, int),
    Error,
> {
    match wire::byte_at(bytes, pos) {
        Err(e) => Err(e),
        Ok(open) => if open != wire::OPEN_DICT {
            Err(Error::ExpectedMap)
        } else {
            match visitor.on_dict(bytes, pos + 1) {
                Err(e) => Err(e),
                Ok((value, end)) => match wire::byte_at(bytes, end) {
                    Err(e) => Err(e),
                    Ok(close) => if close != wire::CLOSE {
                        Err(Error::ExpectedMapEnd)
                    } else {
                        Ok((value, end + 1))
                    },
                },
            }
        },
    }
}

/// Whether the byte at `pos` opens a kind of value that is known without
/// being asked for: `d` or a digit.
pub open spec fn opens_known_kind(bytes: Seq<u8>, pos: int) -> bool {
    match wire::byte_at(bytes, pos) {
        Ok(first) => first == wire::OPEN_DICT || wire::is_digit(first),
        Err(_) => false,
    }
}

/// What decoding whatever comes next for `visitor` gives: a dictionary
/// behind `d`, a text behind a digit, and `Syntax` behind any other byte.
pub open spec fn any_decoding<'de, V, Vis: Visitor<'de, V>>(visitor: &Vis, bytes: Seq<u8>, pos: int) -> Result<
    (WireValue, int),
    Error,
> {
    match wire::byte_at(bytes, pos) {
        Err(e) => Err(e),
        Ok(first) => if first == wire::OPEN_DICT {
            dict_decoding(visitor, bytes, pos)
        } else if wire::is_digit(first) {
            text_decoding(visitor, bytes, pos)
        } else {
            Err(Error::Syntax)
        },
    }
}

/// What every step of a decode keeps: the input stays as it is, and the
/// cursor moves forward only.
pub open spec fn advanced(before: Deserializer, after: Deserializer) -> bool {
    &&& after.bytes() == before.bytes()
    &&& before.pos() <= after.pos()
}

/// What a step that decoded a value has done: it stopped at `end`, behind one
/// byte at least and inside the input.
pub open spec fn consumed(before: Deserializer, after: Deserializer, end: int) -> bool {
    &&& after.pos() == end
    &&& before.pos() < end <= before.bytes().len()
}

/// A shape that can be decoded, with nothing else to go by than its type.
///
/// The two spec functions say what `deserialize` does, and the contracts of
/// the decoder speak of them. A shape that does not give them has left what it
/// does unsaid.
pub trait Deserialize<'de>: Sized {
    /// The wire value that this value stands for.
    open spec fn model(&self) -> WireValue {
        arbitrary()
    }

    /// What decoding this shape from `bytes` at `pos` gives: the wire value
    /// found and the position just behind it, or the reason it failed.
    open spec fn decoding(bytes: Seq<u8>, pos: int) -> Result<(WireValue, int), Error> {
        arbitrary()
    }

    /// Decodes one value at the cursor. A value takes up one byte at least,
    /// and none from beyond the input.
    fn deserialize(deserializer: &mut Deserializer<'de>) -> (r: Result<Self, Error>)
        ensures
            advanced(*old(deserializer), *final(deserializer)),
            match Self::decoding(old(deserializer).bytes(), old(deserializer).pos()) {
                Ok((value, end)) => {
                    &&& r is Ok
                    &&& r.unwrap().model() == value
                    &&& consumed(*old(deserializer), *final(deserializer), end)
                },
                Err(e) => r == Err::<Self, Error>(e),
            },
    ;
}

/// A shape that can be decoded into a `V`, going by a value of its own.
///
/// The two spec functions say what `deserialize` does, and the contracts of
/// the decoder speak of them. A seed that does not give them has left what it
/// does unsaid.
pub trait DeserializeSeed<'de, V>: Sized {
    /// The wire value that `value` stands for.
    open spec fn model(value: &V) -> WireValue {
        arbitrary()
    }

    /// What decoding with this seed from `bytes` at `pos` gives: the wire
    /// value found and the position just behind it, or the reason it failed.
    open spec fn decoding(&self, bytes: Seq<u8>, pos: int) -> Result<(WireValue, int), Error> {
        arbitrary()
    }

    /// Decodes one value at the cursor. A value takes up one byte at least,
    /// and none from beyond the input.
    fn deserialize(self, deserializer: &mut Deserializer<'de>) -> (r: Result<V, Error>)
        ensures
            advanced(*old(deserializer), *final(deserializer)),
            match self.decoding(old(deserializer).bytes(), old(deserializer).pos()) {
                Ok((value, end)) => {
                    &&& r is Ok
                    &&& Self::model(&r.unwrap()) == value
                    &&& consumed(*old(deserializer), *final(deserializer), end)
                },
                Err(e) => r == Err::<V, Error>(e),
            },
    ;
}

/// What a decoder hands the pieces of a value to, to have a `V` built from
/// them: an integer, a text, a byte string, the elements of a list or the
/// entries of a dictionary.
///
/// The spec functions say what the `visit` functions do, and the contracts of
/// the decoder speak of them. A visitor that does not give them has left what
/// it does unsaid.
pub trait Visitor<'de, V>: Sized {
    /// The wire value that `value` stands for.
    open spec fn model(value: &V) -> WireValue {
        arbitrary()
    }

    /// What this visitor makes of the integer `v`.
    open spec fn on_integer(&self, v: int) -> Result<WireValue, Error> {
        arbitrary()
    }

    /// What this visitor makes of a text with the bytes `content`.
    open spec fn on_text(&self, content: Seq<u8>) -> Result<WireValue, Error> {
        arbitrary()
    }

    /// What this visitor makes of the byte string `content`.
    open spec fn on_bytes(&self, content: Seq<u8>) -> Result<WireValue, Error> {
        arbitrary()
    }

    /// What this visitor makes of the elements of a list that stand in
    /// `bytes` from `pos` on, and where it stops reading.
    open spec fn on_list(&self, bytes: Seq<u8>, pos: int) -> Result<(WireValue, int), Error> {
        arbitrary()
    }

    /// What this visitor makes of the entries of a dictionary that stand in
    /// `bytes` from `pos` on, and where it stops reading.
    open spec fn on_dict(&self, bytes: Seq<u8>, pos: int) -> Result<(WireValue, int), Error> {
        arbitrary()
    }

    /// Builds a value from an integer of eight bits: as from any other,
    /// unless the visitor says otherwise.
    fn visit_i8(self, v: i8) -> (r: Result<V, Error>)
        ensures
            match self.on_integer(v as int) {
                Ok(value) => r is Ok && Self::model(&r.unwrap()) == value,
                Err(e) => r == Err::<V, Error>(e),
            },
    {
        self.visit_i64(v as i64)
    }

    /// Builds a value from an integer of sixteen bits: as from any other,
    /// unless the visitor says otherwise.
    fn visit_i16(self, v: i16) -> (r: Result<V, Error>)
        ensures
            match self.on_integer(v as int) {
                Ok(value) => r is Ok && Self::model(&r.unwrap()) == value,
                Err(e) => r == Err::<V, Error>(e),
            },
    {
        self.visit_i64(v as i64)
    }

    /// Builds a value from an integer of thirty-two bits: as from any other,
    /// unless the visitor says otherwise.
    fn visit_i32(self, v: i32) -> (r: Result<V, Error>)
        ensures
            match self.on_integer(v as int) {
                Ok(value) => r is Ok && Self::model(&r.unwrap()) == value,
                Err(e) => r == Err::<V, Error>(e),
            },
    {
        self.visit_i64(v as i64)
    }

    /// Builds a value from an integer.
    fn visit_i64(self, v: i64) -> (r: Result<V, Error>)
        ensures
            match self.on_integer(v as int) {
                Ok(value) => r is Ok && Self::model(&r.unwrap()) == value,
                Err(e) => r == Err::<V, Error>(e),
            },
    ;

    /// Builds a value from a text that lives as long as the input.
    fn visit_borrowed_str(self, v: &'de str) -> (r: Result<V, Error>)
        ensures
            match self.on_text(v.spec_bytes()) {
                Ok(value) => r is Ok && Self::model(&r.unwrap()) == value,
                Err(e) => r == Err::<V, Error>(e),
            },
    ;

    /// Builds a value from a byte string that lives as long as the input.
    fn visit_borrowed_bytes(self, v: &'de [u8]) -> (r: Result<V, Error>)
        ensures
            match self.on_bytes(v@) {
                Ok(value) => r is Ok && Self::model(&r.unwrap()) == value,
                Err(e) => r == Err::<V, Error>(e),
            },
    ;

    /// Builds a value from the elements of a list, asking `seq` for one after
    /// the other.
    fn visit_seq(self, seq: ColonSeparated<'_, 'de>) -> (r: Result<V, Error>)
        ensures
            advanced(*old(seq.de), *final(seq.de)),
            match self.on_list(old(seq.de).bytes(), old(seq.de).pos()) {
                Ok((value, end)) => {
                    &&& r is Ok
                    &&& Self::model(&r.unwrap()) == value
                    &&& final(seq.de).pos() == end
                },
                Err(e) => r == Err::<V, Error>(e),
            },
    ;

    /// Builds a value from the entries of a dictionary, asking `map` for a
    /// key, then for its value, one entry after the other.
    fn visit_map(self, map: ColonSeparated<'_, 'de>) -> (r: Result<V, Error>)
        ensures
            advanced(*old(map.de), *final(map.de)),
            match self.on_dict(old(map.de).bytes(), old(map.de).pos()) {
                Ok((value, end)) => {
                    &&& r is Ok
                    &&& Self::model(&r.unwrap()) == value
                    &&& final(map.de).pos() == end
                },
                Err(e) => r == Err::<V, Error>(e),
            },
    ;
}

/// Whether, after the values of an open list or dictionary, nothing but its
/// end is left to read: `Eof` where the input is used up.
pub open spec fn at_close(bytes: Seq<u8>, pos: int) -> Result<bool, Error> {
    match wire::byte_at(bytes, pos) {
        Ok(b) => Ok(b == wire::CLOSE),
        Err(e) => Err(e),
    }
}

/// What asking an open list or dictionary for its next value gives: nothing
/// where its end comes next, else what `seed` decodes.
pub open spec fn next_decoding<'de, V, S: DeserializeSeed<'de, V>>(seed: &S, bytes: Seq<u8>, pos: int) -> Result<
    (Option<WireValue>, int),
    Error,
> {
    match at_close(bytes, pos) {
        Err(e) => Err(e),
        Ok(true) => Ok((None, pos)),
        Ok(false) => match seed.decoding(bytes, pos) {
            Ok((value, end)) => Ok((Some(value), end)),
            Err(e) => Err(e),
        },
    }
}

/// One open list or dictionary of the input, for as long as its values are
/// read. It holds the decoder, which is free again once this is gone.
pub struct ColonSeparated<'a, 'de: 'a> {
    pub de: &'a mut Deserializer<'de>,
}

impl<'a, 'de> ColonSeparated<'a, 'de> {
    /// Takes hold of the decoder, which stands behind the opening byte.
    pub fn new(de: &'a mut Deserializer<'de>) -> (r: Self)
        ensures
            *r.de == *old(de),
            *final(r.de) == *final(de),
    {
        ColonSeparated { de }
    }

    /// The next key of a dictionary, or nothing where its end comes next.
    pub fn next_key_seed<V, K: DeserializeSeed<'de, V>>(&mut self, seed: K) -> (r: Result<Option<V>, Error>)
        ensures
            advanced(*old(self).de, *final(self).de),
            *final(final(self).de) == *final(old(self).de),
            0 <= old(self).de.pos() <= old(self).de.bytes().len(),
            match next_decoding(&seed, old(self).de.bytes(), old(self).de.pos()) {
                Ok((Some(value), end)) => {
                    &&& r is Ok
                    &&& r.unwrap() is Some
                    &&& K::model(&r.unwrap().unwrap()) == value
                    &&& consumed(*old(self).de, *final(self).de, end)
                },
                Ok((None, end)) => r == Ok::<Option<V>, Error>(None) && final(self).de.pos() == end,
                Err(e) => r == Err::<Option<V>, Error>(e),
            },
    {
        if self.de.peek_char()? == wire::CLOSE {
            return Ok(None);
        }
        match seed.deserialize(&mut *self.de) {
            Ok(key) => Ok(Some(key)),
            Err(e) => Err(e),
        }
    }

    /// The value that belongs to the key read last. Nothing stands between a
    /// key and its value.
    pub fn next_value_seed<V, S: DeserializeSeed<'de, V>>(&mut self, seed: S) -> (r: Result<V, Error>)
        ensures
            advanced(*old(self).de, *final(self).de),
            *final(final(self).de) == *final(old(self).de),
            match seed.decoding(old(self).de.bytes(), old(self).de.pos()) {
                Ok((value, end)) => {
                    &&& r is Ok
                    &&& S::model(&r.unwrap()) == value
                    &&& consumed(*old(self).de, *final(self).de, end)
                },
                Err(e) => r == Err::<V, Error>(e),
            },
    {
        seed.deserialize(&mut *self.de)
    }

    /// The next element of a list, or nothing where its end comes next.
    pub fn next_element_seed<V, T: DeserializeSeed<'de, V>>(&mut self, seed: T) -> (r: Result<Option<V>, Error>)
        ensures
            advanced(*old(self).de, *final(self).de),
            *final(final(self).de) == *final(old(self).de),
            0 <= old(self).de.pos() <= old(self).de.bytes().len(),
            match next_decoding(&seed, old(self).de.bytes(), old(self).de.pos()) {
                Ok((Some(value), end)) => {
                    &&& r is Ok
                    &&& r.unwrap() is Some
                    &&& T::model(&r.unwrap().unwrap()) == value
                    &&& consumed(*old(self).de, *final(self).de, end)
                },
                Ok((None, end)) => r == Ok::<Option<V>, Error>(None) && final(self).de.pos() == end,
                Err(e) => r == Err::<Option<V>, Error>(e),
            },
    {
        if self.de.peek_char()? == wire::CLOSE {
            return Ok(None);
        }
        match seed.deserialize(&mut *self.de) {
            Ok(element) => Ok(Some(element)),
            Err(e) => Err(e),
        }
    }

    /// The next key of a dictionary, of the shape `K`, or nothing where its
    /// end comes next.
    pub fn next_key<K: Deserialize<'de>>(&mut self) -> (r: Result<Option<K>, Error>)
        ensures
            advanced(*old(self).de, *final(self).de),
            *final(final(self).de) == *final(old(self).de),
            0 <= old(self).de.pos() <= old(self).de.bytes().len(),
            match at_close(old(self).de.bytes(), old(self).de.pos()) {
                Err(e) => r == Err::<Option<K>, Error>(e),
                Ok(true) => r == Ok::<Option<K>, Error>(None) && final(self).de.pos() == old(self).de.pos(),
                Ok(false) => match K::decoding(old(self).de.bytes(), old(self).de.pos()) {
                    Ok((value, end)) => {
                        &&& r is Ok
                        &&& r.unwrap() is Some
                        &&& r.unwrap().unwrap().model() == value
                        &&& consumed(*old(self).de, *final(self).de, end)
                    },
                    Err(e) => r == Err::<Option<K>, Error>(e),
                },
            },
    {
        self.next_key_seed(PhantomData::<K>)
    }

    /// The value that belongs to the key read last, of the shape `V`.
    pub fn next_value<V: Deserialize<'de>>(&mut self) -> (r: Result<V, Error>)
        ensures
            advanced(*old(self).de, *final(self).de),
            *final(final(self).de) == *final(old(self).de),
            match V::decoding(old(self).de.bytes(), old(self).de.pos()) {
                Ok((value, end)) => {
                    &&& r is Ok
                    &&& r.unwrap().model() == value
                    &&& consumed(*old(self).de, *final(self).de, end)
                },
                Err(e) => r == Err::<V, Error>(e),
            },
    {
        self.next_value_seed(PhantomData::<V>)
    }

    /// The next element of a list, of the shape `T`, or nothing where its end
    /// comes next.
    pub fn next_element<T: Deserialize<'de>>(&mut self) -> (r: Result<Option<T>, Error>)
        ensures
            advanced(*old(self).de, *final(self).de),
            *final(final(self).de) == *final(old(self).de),
            0 <= old(self).de.pos() <= old(self).de.bytes().len(),
            match at_close(old(self).de.bytes(), old(self).de.pos()) {
                Err(e) => r == Err::<Option<T>, Error>(e),
                Ok(true) => r == Ok::<Option<T>, Error>(None) && final(self).de.pos() == old(self).de.pos(),
                Ok(false) => match T::decoding(old(self).de.bytes(), old(self).de.pos()) {
                    Ok((value, end)) => {
                        &&& r is Ok
                        &&& r.unwrap() is Some
                        &&& r.unwrap().unwrap().model() == value
                        &&& consumed(*old(self).de, *final(self).de, end)
                    },
                    Err(e) => r == Err::<Option<T>, Error>(e),
                },
            },
    {
        self.next_element_seed(PhantomData::<T>)
    }
}

/// What a decode of the whole of `bytes` owes: the one value that stands in
/// them, `TrailingCharacters` where bytes are left behind it, or the reason
/// the value could not be decoded.
pub open spec fn decoded<'de, T: Deserialize<'de>>(bytes: Seq<u8>, r: Result<T, Error>) -> bool {
    match T::decoding(bytes, 0) {
        Ok((value, end)) => if end == bytes.len() {
            r is Ok && r.unwrap().model() == value
        } else {
            r == Err::<T, Error>(Error::TrailingCharacters)
        },
        Err(e) => r == Err::<T, Error>(e),
    }
}

/// Decodes the one value that the bytes of `s` hold.
pub fn from_str<'a, T: Deserialize<'a>>(s: &'a str) -> (r: Result<T, Error>)
    ensures
        decoded(s.spec_bytes(), r),
{
    let mut deserializer = Deserializer::from_str(s);
    let t = T::deserialize(&mut deserializer)?;
    deserializer.end()?;
    Ok(t)
}

/// Decodes the one value that `bytes` hold.
pub fn from_bytes<'a, T: Deserialize<'a>>(bytes: &'a [u8]) -> (r: Result<T, Error>)
    ensures
        decoded(bytes@, r),
{
    let mut deserializer = Deserializer::from_bytes(bytes);
    let t = T::deserialize(&mut deserializer)?;
    deserializer.end()?;
    Ok(t)
}

} // verus!
