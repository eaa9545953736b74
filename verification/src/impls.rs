//! The shapes that come with the codec: integers, texts, byte strings and
//! lists of them.

use core::marker::PhantomData;
use vstd::prelude::*;
use vstd::string::StringSliceAdditionalSpecFns;
use crate::de::{ColonSeparated, Deserialize, DeserializeSeed, Deserializer, Visitor};
use crate::error::Error;
use crate::ser::{Serialize, Serializer};
use crate::wire;
use crate::wire::WireValue;

verus! {

/// A type decodes as a seed that carries nothing but the type.
impl<'de, T: Deserialize<'de>> DeserializeSeed<'de, T> for PhantomData<T> {
    open spec fn model(value: &T) -> WireValue {
        value.model()
    }

    open spec fn decoding(&self, bytes: Seq<u8>, pos: int) -> Result<(WireValue, int), Error> {
        T::decoding(bytes, pos)
    }

    fn deserialize(self, deserializer: &mut Deserializer<'de>) -> (r: Result<T, Error>) {
        T::deserialize(deserializer)
    }
}

/// Builds an integer between `low` and `high`. Whatever is no integer, or
/// lies outside, fails with `ExpectedInteger`.
pub struct IntegerVisitor {
    pub low: i64,
    pub high: i64,
}

impl<'de> Visitor<'de, i64> for IntegerVisitor {
    open spec fn model(value: &i64) -> WireValue {
        WireValue::Integer(*value as int)
    }

    open spec fn on_integer(&self, v: int) -> Result<WireValue, Error> {
        if self.low <= v <= self.high {
            Ok(WireValue::Integer(v))
        } else {
            Err(Error::ExpectedInteger)
        }
    }

    open spec fn on_text(&self, content: Seq<u8>) -> Result<WireValue, Error> {
        Err(Error::ExpectedInteger)
    }

    open spec fn on_bytes(&self, content: Seq<u8>) -> Result<WireValue, Error> {
        Err(Error::ExpectedInteger)
    }

    open spec fn on_list(&self, bytes: Seq<u8>, pos: int) -> Result<(WireValue, int), Error> {
        Err(Error::ExpectedInteger)
    }

    open spec fn on_dict(&self, bytes: Seq<u8>, pos: int) -> Result<(WireValue, int), Error> {
        Err(Error::ExpectedInteger)
    }

    fn visit_i64(self, v: i64) -> (r: Result<i64, Error>) {
        if self.low <= v && v <= self.high {
            Ok(v)
        } else {
            Err(Error::ExpectedInteger)
        }
    }

    fn visit_borrowed_str(self, v: &'de str) -> (r: Result<i64, Error>) {
        Err(Error::ExpectedInteger)
    }

    fn visit_borrowed_bytes(self, v: &'de [u8]) -> (r: Result<i64, Error>) {
        Err(Error::ExpectedInteger)
    }

    fn visit_seq(self, seq: ColonSeparated<'_, 'de>) -> (r: Result<i64, Error>) {
        Err(Error::ExpectedInteger)
    }

    fn visit_map(self, map: ColonSeparated<'_, 'de>) -> (r: Result<i64, Error>) {
        Err(Error::ExpectedInteger)
    }
}

impl<'de> Deserialize<'de> for i64 {
    open spec fn model(&self) -> WireValue {
        WireValue::Integer(*self as int)
    }

    open spec fn decoding(bytes: Seq<u8>, pos: int) -> Result<(WireValue, int), Error> {
        crate::de::integer_decoding(
            &(IntegerVisitor { low: i64::MIN, high: i64::MAX }),
            bytes,
            pos,
            i64::MIN as int,
            i64::MAX as int,
        )
    }

    fn deserialize(deserializer: &mut Deserializer<'de>) -> (r: Result<i64, Error>) {
        deserializer.deserialize_i64(IntegerVisitor { low: i64::MIN, high: i64::MAX })
    }
}

impl<'de> Deserialize<'de> for i32 {
    open spec fn model(&self) -> WireValue {
        WireValue::Integer(*self as int)
    }

    open spec fn decoding(bytes: Seq<u8>, pos: int) -> Result<(WireValue, int), Error> {
        crate::de::integer_decoding(
            &(IntegerVisitor { low: i32::MIN as i64, high: i32::MAX as i64 }),
            bytes,
            pos,
            i32::MIN as int,
            i32::MAX as int,
        )
    }

    fn deserialize(deserializer: &mut Deserializer<'de>) -> (r: Result<i32, Error>) {
        let visitor = IntegerVisitor { low: i32::MIN as i64, high: i32::MAX as i64 };
        match deserializer.deserialize_i32(visitor) {
            Ok(v) => Ok(v as i32),
            Err(e) => Err(e),
        }
    }
}

impl<'de> Deserialize<'de> for i16 {
    open spec fn model(&self) -> WireValue {
        WireValue::Integer(*self as int)
    }

    open spec fn decoding(bytes: Seq<u8>, pos: int) -> Result<(WireValue, int), Error> {
        crate::de::integer_decoding(
            &(IntegerVisitor { low: i16::MIN as i64, high: i16::MAX as i64 }),
            bytes,
            pos,
            i16::MIN as int,
            i16::MAX as int,
        )
    }

    fn deserialize(deserializer: &mut Deserializer<'de>) -> (r: Result<i16, Error>) {
        let visitor = IntegerVisitor { low: i16::MIN as i64, high: i16::MAX as i64 };
        match deserializer.deserialize_i16(visitor) {
            Ok(v) => Ok(v as i16),
            Err(e) => Err(e),
        }
    }
}

impl<'de> Deserialize<'de> for i8 {
    open spec fn model(&self) -> WireValue {
        WireValue::Integer(*self as int)
    }

    open spec fn decoding(bytes: Seq<u8>, pos: int) -> Result<(WireValue, int), Error> {
        crate::de::integer_decoding(
            &(IntegerVisitor { low: i8::MIN as i64, high: i8::MAX as i64 }),
            bytes,
            pos,
            i8::MIN as int,
            i8::MAX as int,
        )
    }

    fn deserialize(deserializer: &mut Deserializer<'de>) -> (r: Result<i8, Error>) {
        let visitor = IntegerVisitor { low: i8::MIN as i64, high: i8::MAX as i64 };
        match deserializer.deserialize_i8(visitor) {
            Ok(v) => Ok(v as i8),
            Err(e) => Err(e),
        }
    }
}

/// Builds a text that is borrowed from the input. Whatever is no text fails
/// with `ExpectedColon`, as where a length and its `:` are missing.
pub struct StrVisitor;

impl<'de> Visitor<'de, &'de str> for StrVisitor {
    open spec fn model(value: &&'de str) -> WireValue {
        WireValue::Bytes(value.spec_bytes())
    }

    open spec fn on_integer(&self, v: int) -> Result<WireValue, Error> {
        Err(Error::ExpectedColon)
    }

    open spec fn on_text(&self, content: Seq<u8>) -> Result<WireValue, Error> {
        Ok(WireValue::Bytes(content))
    }

    open spec fn on_bytes(&self, content: Seq<u8>) -> Result<WireValue, Error> {
        Err(Error::ExpectedColon)
    }

    open spec fn on_list(&self, bytes: Seq<u8>, pos: int) -> Result<(WireValue, int), Error> {
        Err(Error::ExpectedColon)
    }

    open spec fn on_dict(&self, bytes: Seq<u8>, pos: int) -> Result<(WireValue, int), Error> {
        Err(Error::ExpectedColon)
    }

    fn visit_i64(self, v: i64) -> (r: Result<&'de str, Error>) {
        Err(Error::ExpectedColon)
    }

    fn visit_borrowed_str(self, v: &'de str) -> (r: Result<&'de str, Error>) {
        Ok(v)
    }

    fn visit_borrowed_bytes(self, v: &'de [u8]) -> (r: Result<&'de str, Error>) {
        Err(Error::ExpectedColon)
    }

    fn visit_seq(self, seq: ColonSeparated<'_, 'de>) -> (r: Result<&'de str, Error>) {
        Err(Error::ExpectedColon)
    }

    fn visit_map(self, map: ColonSeparated<'_, 'de>) -> (r: Result<&'de str, Error>) {
        Err(Error::ExpectedColon)
    }
}

impl<'de> Deserialize<'de> for &'de str {
    open spec fn model(&self) -> WireValue {
        WireValue::Bytes(self.spec_bytes())
    }

    open spec fn decoding(bytes: Seq<u8>, pos: int) -> Result<(WireValue, int), Error> {
        crate::de::text_decoding(&StrVisitor, bytes, pos)
    }

    fn deserialize(deserializer: &mut Deserializer<'de>) -> (r: Result<&'de str, Error>) {
        deserializer.deserialize_str(StrVisitor)
    }
}

impl<'de> Deserialize<'de> for String {
    open spec fn model(&self) -> WireValue {
        WireValue::Bytes(vstd::utf8::encode_utf8(self@))
    }

    open spec fn decoding(bytes: Seq<u8>, pos: int) -> Result<(WireValue, int), Error> {
        crate::de::text_decoding(&StrVisitor, bytes, pos)
    }

    fn deserialize(deserializer: &mut Deserializer<'de>) -> (r: Result<String, Error>) {
        match deserializer.deserialize_string(StrVisitor) {
            Ok(text) => Ok(text.to_owned()),
            Err(e) => Err(e),
        }
    }
}

/// A byte string, which need not be a text. It borrows its bytes.
#[derive(Clone, Copy, Debug, PartialEq, Eq)]
pub struct Bytes<'a>(pub &'a [u8]);

impl<'a> DeepView for Bytes<'a> {
    type V = Seq<u8>;

    /// The bytes.
    open spec fn deep_view(&self) -> Seq<u8> {
        self.0@
    }
}

/// Builds a byte string that is borrowed from the input. Whatever is no byte
/// string fails with `ExpectedColon`, as where a length and its `:` are
/// missing.
pub struct BytesVisitor;

impl<'de> Visitor<'de, Bytes<'de>> for BytesVisitor {
    open spec fn model(value: &Bytes<'de>) -> WireValue {
        WireValue::Bytes(value.0@)
    }

    open spec fn on_integer(&self, v: int) -> Result<WireValue, Error> {
        Err(Error::ExpectedColon)
    }

    open spec fn on_text(&self, content: Seq<u8>) -> Result<WireValue, Error> {
        Ok(WireValue::Bytes(content))
    }

    open spec fn on_bytes(&self, content: Seq<u8>) -> Result<WireValue, Error> {
        Ok(WireValue::Bytes(content))
    }

    open spec fn on_list(&self, bytes: Seq<u8>, pos: int) -> Result<(WireValue, int), Error> {
        Err(Error::ExpectedColon)
    }

    open spec fn on_dict(&self, bytes: Seq<u8>, pos: int) -> Result<(WireValue, int), Error> {
        Err(Error::ExpectedColon)
    }

    fn visit_i64(self, v: i64) -> (r: Result<Bytes<'de>, Error>) {
        Err(Error::ExpectedColon)
    }

    fn visit_borrowed_str(self, v: &'de str) -> (r: Result<Bytes<'de>, Error>) {
        Ok(Bytes(v.as_bytes()))
    }

    fn visit_borrowed_bytes(self, v: &'de [u8]) -> (r: Result<Bytes<'de>, Error>) {
        Ok(Bytes(v))
    }

    fn visit_seq(self, seq: ColonSeparated<'_, 'de>) -> (r: Result<Bytes<'de>, Error>) {
        Err(Error::ExpectedColon)
    }

    fn visit_map(self, map: ColonSeparated<'_, 'de>) -> (r: Result<Bytes<'de>, Error>) {
        Err(Error::ExpectedColon)
    }
}

impl<'de> Deserialize<'de> for Bytes<'de> {
    open spec fn model(&self) -> WireValue {
        WireValue::Bytes(self.0@)
    }

    open spec fn decoding(bytes: Seq<u8>, pos: int) -> Result<(WireValue, int), Error> {
        crate::de::bytes_decoding(&BytesVisitor, bytes, pos)
    }

    fn deserialize(deserializer: &mut Deserializer<'de>) -> (r: Result<Bytes<'de>, Error>) {
        deserializer.deserialize_bytes(BytesVisitor)
    }
}

/// The wire values that the values of `items` stand for, in their order.
pub open spec fn models<'de, T: Deserialize<'de>>(items: Seq<T>) -> Seq<WireValue> {
    Seq::new(items.len(), |i: int| items[i].model())
}

/// What reading elements of the shape `T` up to the end of their list gives:
/// the wire values of the elements in their order, and the position of the
/// closing `e`. An element has to take up one byte at least and none from
/// beyond the input, as every decoded value does.
pub open spec fn elements<'de, T: Deserialize<'de>>(bytes: Seq<u8>, pos: int) -> Result<(Seq<WireValue>, int), Error>
    decreases bytes.len() - pos,
{
    match crate::de::at_close(bytes, pos) {
        Err(e) => Err(e),
        Ok(true) => Ok((Seq::empty(), pos)),
        Ok(false) => match T::decoding(bytes, pos) {
            Err(e) => Err(e),
            Ok((first, next)) => if pos < next <= bytes.len() {
                match elements::<T>(bytes, next) {
                    Err(e) => Err(e),
                    Ok((rest, end)) => Ok((seq![first] + rest, end)),
                }
            } else {
                Err(Error::Eof)
            },
        },
    }
}

/// What is left to read of a list, behind the elements `front` that were
/// read already.
pub open spec fn following(front: Seq<WireValue>, rest: Result<(Seq<WireValue>, int), Error>) -> Result<
    (Seq<WireValue>, int),
    Error,
> {
    match rest {
        Ok((back, end)) => Ok((front + back, end)),
        Err(e) => Err(e),
    }
}

/// Builds a list of values of the shape `T`. Whatever is no list fails with
/// `ExpectedList`.
pub struct VecVisitor<T>(pub PhantomData<T>);

impl<'de, T: Deserialize<'de>> Visitor<'de, Vec<T>> for VecVisitor<T> {
    open spec fn model(value: &Vec<T>) -> WireValue {
        WireValue::List(models(value@))
    }

    open spec fn on_integer(&self, v: int) -> Result<WireValue, Error> {
        Err(Error::ExpectedList)
    }

    open spec fn on_text(&self, content: Seq<u8>) -> Result<WireValue, Error> {
        Err(Error::ExpectedList)
    }

    open spec fn on_bytes(&self, content: Seq<u8>) -> Result<WireValue, Error> {
        Err(Error::ExpectedList)
    }

    open spec fn on_list(&self, bytes: Seq<u8>, pos: int) -> Result<(WireValue, int), Error> {
        match elements::<T>(bytes, pos) {
            Ok((items, end)) => Ok((WireValue::List(items), end)),
            Err(e) => Err(e),
        }
    }

    open spec fn on_dict(&self, bytes: Seq<u8>, pos: int) -> Result<(WireValue, int), Error> {
        Err(Error::ExpectedList)
    }

    fn visit_i64(self, v: i64) -> (r: Result<Vec<T>, Error>) {
        Err(Error::ExpectedList)
    }

    fn visit_borrowed_str(self, v: &'de str) -> (r: Result<Vec<T>, Error>) {
        Err(Error::ExpectedList)
    }

    fn visit_borrowed_bytes(self, v: &'de [u8]) -> (r: Result<Vec<T>, Error>) {
        Err(Error::ExpectedList)
    }

    fn visit_seq(self, seq: ColonSeparated<'_, 'de>) -> (r: Result<Vec<T>, Error>) {
        let ghost bytes = seq.de.bytes();
        let ghost start = seq.de.pos();
        let mut access = seq;
        let mut out: Vec<T> = Vec::new();
        let mut result: Result<(), Error> = Ok(());
        let mut reading = true;
        proof {
            assert(models(out@) =~= Seq::<WireValue>::empty());
            match elements::<T>(bytes, start) {
                Ok((items, end)) => {
                    assert(Seq::<WireValue>::empty() + items =~= items);
                },
                Err(e) => {},
            }
        }
        while reading
            invariant
                access.de.bytes() == bytes,
                start <= access.de.pos(),
                *final(access.de) == *final(seq.de),
                reading ==> result is Ok,
                reading ==> elements::<T>(bytes, start) == following(
                    models(out@),
                    elements::<T>(bytes, access.de.pos()),
                ),
                !reading ==> match elements::<T>(bytes, start) {
                    Ok((items, end)) => result is Ok && models(out@) == items && access.de.pos() == end,
                    Err(e) => result == Err::<(), Error>(e),
                },
            decreases if reading { bytes.len() - access.de.pos() + 1 } else { 0 },
        {
            let ghost before = models(out@);
            match access.next_element::<T>() {
                Err(e) => {
                    result = Err(e);
                    reading = false;
                },
                Ok(None) => {
                    reading = false;
                    proof {
                        assert(before + Seq::<WireValue>::empty() =~= before);
                    }
                },
                Ok(Some(element)) => {
                    out.push(element);
                    proof {
                        let next = access.de.pos();
                        assert(models(out@) =~= before + seq![element.model()]);
                        match elements::<T>(bytes, next) {
                            Ok((rest, end)) => {
                                assert(before + (seq![element.model()] + rest) =~= models(out@) + rest);
                            },
                            Err(e) => {},
                        }
                    }
                },
            }
        }
        match result {
            Ok(()) => Ok(out),
            Err(e) => Err(e),
        }
    }

    fn visit_map(self, map: ColonSeparated<'_, 'de>) -> (r: Result<Vec<T>, Error>) {
        Err(Error::ExpectedList)
    }
}

impl<'de, T: Deserialize<'de>> Deserialize<'de> for Vec<T> {
    open spec fn model(&self) -> WireValue {
        WireValue::List(models(self@))
    }

    open spec fn decoding(bytes: Seq<u8>, pos: int) -> Result<(WireValue, int), Error> {
        crate::de::list_decoding(&VecVisitor::<T>(PhantomData), bytes, pos)
    }

    fn deserialize(deserializer: &mut Deserializer<'de>) -> (r: Result<Vec<T>, Error>) {
        deserializer.deserialize_seq(VecVisitor::<T>(PhantomData))
    }
}

impl Serialize for i8 {
    open spec fn encoding(&self) -> Result<Seq<u8>, Error> {
        Ok(wire::encode_integer(*self as int))
    }

    fn serialize(&self, serializer: &mut Serializer) -> (r: Result<(), Error>) {
        serializer.serialize_i8(*self)
    }
}

impl Serialize for i16 {
    open spec fn encoding(&self) -> Result<Seq<u8>, Error> {
        Ok(wire::encode_integer(*self as int))
    }

    fn serialize(&self, serializer: &mut Serializer) -> (r: Result<(), Error>) {
        serializer.serialize_i16(*self)
    }
}

impl Serialize for i32 {
    open spec fn encoding(&self) -> Result<Seq<u8>, Error> {
        Ok(wire::encode_integer(*self as int))
    }

    fn serialize(&self, serializer: &mut Serializer) -> (r: Result<(), Error>) {
        serializer.serialize_i32(*self)
    }
}

impl Serialize for i64 {
    open spec fn encoding(&self) -> Result<Seq<u8>, Error> {
        Ok(wire::encode_integer(*self as int))
    }

    fn serialize(&self, serializer: &mut Serializer) -> (r: Result<(), Error>) {
        serializer.serialize_i64(*self)
    }
}

impl Serialize for str {
    open spec fn encoding(&self) -> Result<Seq<u8>, Error> {
        Ok(wire::encode_byte_string(self.spec_bytes()))
    }

    fn serialize(&self, serializer: &mut Serializer) -> (r: Result<(), Error>) {
        serializer.serialize_str(self)
    }
}

impl Serialize for String {
    open spec fn encoding(&self) -> Result<Seq<u8>, Error> {
        Ok(wire::encode_byte_string(vstd::utf8::encode_utf8(self@)))
    }

    fn serialize(&self, serializer: &mut Serializer) -> (r: Result<(), Error>) {
        serializer.serialize_str(self.as_str())
    }
}

impl<'a> Serialize for Bytes<'a> {
    open spec fn encoding(&self) -> Result<Seq<u8>, Error> {
        Ok(wire::encode_byte_string(self.0@))
    }

    fn serialize(&self, serializer: &mut Serializer) -> (r: Result<(), Error>) {
        serializer.serialize_bytes(self.0)
    }
}

/// A reference is written as what it refers to.
impl<'a, T: Serialize + ?Sized> Serialize for &'a T {
    open spec fn encoding(&self) -> Result<Seq<u8>, Error> {
        (**self).encoding()
    }

    fn serialize(&self, serializer: &mut Serializer) -> (r: Result<(), Error>) {
        (**self).serialize(serializer)
    }
}

/// What writing `items` one after the other appends: their bytes in a row,
/// or the reason the first of them that cannot be written gives.
pub open spec fn encodings<T: Serialize>(items: Seq<T>) -> Result<Seq<u8>, Error>
    decreases items.len(),
{
    if items.len() == 0 {
        Ok(Seq::empty())
    } else {
        match encodings(items.drop_last()) {
            Ok(front) => match items.last().encoding() {
                Ok(last) => Ok(front + last),
                Err(e) => Err(e),
            },
            Err(e) => Err(e),
        }
    }
}

/// Once an item cannot be written, no longer run of the items can.
pub proof fn lemma_encodings_failure<T: Serialize>(items: Seq<T>, i: int, j: int)
    requires
        0 <= i < j <= items.len(),
        encodings(items.take(i)) is Ok,
        items[i].encoding() is Err,
    ensures
        encodings(items.take(j)) == Err::<Seq<u8>, Error>(items[i].encoding()->Err_0),
    decreases j - i,
{
    assert(items.take(j).drop_last() =~= items.take(j - 1));
    if j > i + 1 {
        lemma_encodings_failure(items, i, j - 1);
    }
}

impl<T: Serialize> Serialize for Vec<T> {
    open spec fn encoding(&self) -> Result<Seq<u8>, Error> {
        match encodings(self@) {
            Ok(items) => Ok(seq![wire::OPEN_LIST] + items + seq![wire::CLOSE]),
            Err(e) => Err(e),
        }
    }

    #[verifier::loop_isolation(false)]
    fn serialize(&self, serializer: &mut Serializer) -> (r: Result<(), Error>) {
        serializer.serialize_seq(Some(self.len()))?;
        let mut i: usize = 0;
        while i < self.len()
            invariant
                i <= self.len(),
                encodings(self@.take(i as int)) is Ok,
                serializer@ == old(serializer)@.push(wire::OPEN_LIST) + encodings(self@.take(i as int))->Ok_0,
            decreases self.len() - i,
        {
            proof {
                assert(self@.take(i + 1).drop_last() =~= self@.take(i as int));
                if self@[i as int].encoding() is Err {
                    lemma_encodings_failure(self@, i as int, self@.len() as int);
                    assert(self@.take(self@.len() as int) =~= self@);
                }
            }
            serializer.serialize_element(&self[i])?;
            i += 1;
        }
        proof {
            assert(self@.take(i as int) =~= self@);
        }
        serializer.end()
    }
}

/// Builds nothing: the visitor of the shapes that this encoding does not
/// have.
pub struct Unsupported<T>(pub PhantomData<T>);

impl<'de, T> Visitor<'de, T> for Unsupported<T> {
    open spec fn on_integer(&self, v: int) -> Result<WireValue, Error> {
        Err(Error::UnsupportedKind)
    }

    open spec fn on_text(&self, content: Seq<u8>) -> Result<WireValue, Error> {
        Err(Error::UnsupportedKind)
    }

    open spec fn on_bytes(&self, content: Seq<u8>) -> Result<WireValue, Error> {
        Err(Error::UnsupportedKind)
    }

    open spec fn on_list(&self, bytes: Seq<u8>, pos: int) -> Result<(WireValue, int), Error> {
        Err(Error::UnsupportedKind)
    }

    open spec fn on_dict(&self, bytes: Seq<u8>, pos: int) -> Result<(WireValue, int), Error> {
        Err(Error::UnsupportedKind)
    }

    fn visit_i64(self, v: i64) -> (r: Result<T, Error>) {
        Err(Error::UnsupportedKind)
    }

    fn visit_borrowed_str(self, v: &'de str) -> (r: Result<T, Error>) {
        Err(Error::UnsupportedKind)
    }

    fn visit_borrowed_bytes(self, v: &'de [u8]) -> (r: Result<T, Error>) {
        Err(Error::UnsupportedKind)
    }

    fn visit_seq(self, seq: ColonSeparated<'_, 'de>) -> (r: Result<T, Error>) {
        Err(Error::UnsupportedKind)
    }

    fn visit_map(self, map: ColonSeparated<'_, 'de>) -> (r: Result<T, Error>) {
        Err(Error::UnsupportedKind)
    }
}

impl Serialize for bool {
    open spec fn encoding(&self) -> Result<Seq<u8>, Error> {
        Err(Error::UnsupportedKind)
    }

    fn serialize(&self, serializer: &mut Serializer) -> (r: Result<(), Error>) {
        serializer.serialize_bool(*self)
    }
}

impl<'de> Deserialize<'de> for bool {
    open spec fn decoding(bytes: Seq<u8>, pos: int) -> Result<(WireValue, int), Error> {
        Err(Error::UnsupportedKind)
    }

    fn deserialize(deserializer: &mut Deserializer<'de>) -> (r: Result<bool, Error>) {
        deserializer.deserialize_bool(Unsupported::<bool>(PhantomData))
    }
}

impl Serialize for char {
    open spec fn encoding(&self) -> Result<Seq<u8>, Error> {
        Err(Error::UnsupportedKind)
    }

    fn serialize(&self, serializer: &mut Serializer) -> (r: Result<(), Error>) {
        serializer.serialize_char(*self)
    }
}

impl<'de> Deserialize<'de> for char {
    open spec fn decoding(bytes: Seq<u8>, pos: int) -> Result<(WireValue, int), Error> {
        Err(Error::UnsupportedKind)
    }

    fn deserialize(deserializer: &mut Deserializer<'de>) -> (r: Result<char, Error>) {
        deserializer.deserialize_char(Unsupported::<char>(PhantomData))
    }
}

impl Serialize for u8 {
    open spec fn encoding(&self) -> Result<Seq<u8>, Error> {
        Err(Error::UnsupportedKind)
    }

    fn serialize(&self, serializer: &mut Serializer) -> (r: Result<(), Error>) {
        serializer.serialize_u8(*self)
    }
}

impl<'de> Deserialize<'de> for u8 {
    open spec fn decoding(bytes: Seq<u8>, pos: int) -> Result<(WireValue, int), Error> {
        Err(Error::UnsupportedKind)
    }

    fn deserialize(deserializer: &mut Deserializer<'de>) -> (r: Result<u8, Error>) {
        deserializer.deserialize_u8(Unsupported::<u8>(PhantomData))
    }
}

impl Serialize for u16 {
    open spec fn encoding(&self) -> Result<Seq<u8>, Error> {
        Err(Error::UnsupportedKind)
    }

    fn serialize(&self, serializer: &mut Serializer) -> (r: Result<(), Error>) {
        serializer.serialize_u16(*self)
    }
}

impl<'de> Deserialize<'de> for u16 {
    open spec fn decoding(bytes: Seq<u8>, pos: int) -> Result<(WireValue, int), Error> {
        Err(Error::UnsupportedKind)
    }

    fn deserialize(deserializer: &mut Deserializer<'de>) -> (r: Result<u16, Error>) {
        deserializer.deserialize_u16(Unsupported::<u16>(PhantomData))
    }
}

impl Serialize for u32 {
    open spec fn encoding(&self) -> Result<Seq<u8>, Error> {
        Err(Error::UnsupportedKind)
    }

    fn serialize(&self, serializer: &mut Serializer) -> (r: Result<(), Error>) {
        serializer.serialize_u32(*self)
    }
}

impl<'de> Deserialize<'de> for u32 {
    open spec fn decoding(bytes: Seq<u8>, pos: int) -> Result<(WireValue, int), Error> {
        Err(Error::UnsupportedKind)
    }

    fn deserialize(deserializer: &mut Deserializer<'de>) -> (r: Result<u32, Error>) {
        deserializer.deserialize_u32(Unsupported::<u32>(PhantomData))
    }
}

impl Serialize for u64 {
    open spec fn encoding(&self) -> Result<Seq<u8>, Error> {
        Err(Error::UnsupportedKind)
    }

    fn serialize(&self, serializer: &mut Serializer) -> (r: Result<(), Error>) {
        serializer.serialize_u64(*self)
    }
}

impl<'de> Deserialize<'de> for u64 {
    open spec fn decoding(bytes: Seq<u8>, pos: int) -> Result<(WireValue, int), Error> {
        Err(Error::UnsupportedKind)
    }

    fn deserialize(deserializer: &mut Deserializer<'de>) -> (r: Result<u64, Error>) {
        deserializer.deserialize_u64(Unsupported::<u64>(PhantomData))
    }
}

impl Serialize for () {
    open spec fn encoding(&self) -> Result<Seq<u8>, Error> {
        Err(Error::UnsupportedKind)
    }

    fn serialize(&self, serializer: &mut Serializer) -> (r: Result<(), Error>) {
        serializer.serialize_unit()
    }
}

impl<'de> Deserialize<'de> for () {
    open spec fn decoding(bytes: Seq<u8>, pos: int) -> Result<(WireValue, int), Error> {
        Err(Error::UnsupportedKind)
    }

    fn deserialize(deserializer: &mut Deserializer<'de>) -> (r: Result<(), Error>) {
        deserializer.deserialize_unit(Unsupported::<()>(PhantomData))
    }
}

impl<T> Serialize for Option<T> {
    open spec fn encoding(&self) -> Result<Seq<u8>, Error> {
        Err(Error::UnsupportedKind)
    }

    fn serialize(&self, serializer: &mut Serializer) -> (r: Result<(), Error>) {
        match self {
            Some(value) => serializer.serialize_some(value),
            None => serializer.serialize_none(),
        }
    }
}

impl<'de, T> Deserialize<'de> for Option<T> {
    open spec fn decoding(bytes: Seq<u8>, pos: int) -> Result<(WireValue, int), Error> {
        Err(Error::UnsupportedKind)
    }

    fn deserialize(deserializer: &mut Deserializer<'de>) -> (r: Result<Option<T>, Error>) {
        deserializer.deserialize_option(Unsupported::<Option<T>>(PhantomData))
    }
}

/// A dictionary: its entries in the order in which they stand on the wire,
/// each a key, which is a text, and the value that belongs to it. Keys are
/// neither sorted nor told apart.
#[derive(Clone, Debug, PartialEq)]
pub struct Dict<V>(pub Vec<(String, V)>);

impl<V: DeepView> DeepView for Dict<V> {
    type V = Seq<(Seq<char>, V::V)>;

    /// The entries in their order, each a key and what its value holds.
    open spec fn deep_view(&self) -> Seq<(Seq<char>, V::V)> {
        Seq::new(self.0@.len(), |i: int| (self.0@[i].0@, self.0@[i].1.deep_view()))
    }
}

/// The wire entries that `entries` stand for, in their order.
pub open spec fn entry_models<'de, V: Deserialize<'de>>(entries: Seq<(String, V)>) -> Seq<(Seq<u8>, WireValue)> {
    Seq::new(entries.len(), |i: int| (vstd::utf8::encode_utf8(entries[i].0@), entries[i].1.model()))
}

/// What reading entries with values of the shape `V` up to the end of their
/// dictionary gives: the wire entries in their order, and the position of the
/// closing `e`. A key and a value each have to take up one byte at least and
/// none from beyond the input, as every decoded value does.
pub open spec fn entries<'de, V: Deserialize<'de>>(bytes: Seq<u8>, pos: int) -> Result<
    (Seq<(Seq<u8>, WireValue)>, int),
    Error,
>
    decreases bytes.len() - pos,
{
    match crate::de::at_close(bytes, pos) {
        Err(e) => Err(e),
        Ok(true) => Ok((Seq::empty(), pos)),
        Ok(false) => match wire::text(bytes, pos) {
            Err(e) => Err(e),
            Ok((key, middle)) => match V::decoding(bytes, middle) {
                Err(e) => Err(e),
                Ok((value, next)) => if pos < middle < next <= bytes.len() {
                    match entries::<V>(bytes, next) {
                        Err(e) => Err(e),
                        Ok((rest, end)) => Ok((seq![(key, value)] + rest, end)),
                    }
                } else {
                    Err(Error::Eof)
                },
            },
        },
    }
}

/// What is left to read of a dictionary, behind the entries `front` that
/// were read already.
pub open spec fn following_entries(
    front: Seq<(Seq<u8>, WireValue)>,
    rest: Result<(Seq<(Seq<u8>, WireValue)>, int), Error>,
) -> Result<(Seq<(Seq<u8>, WireValue)>, int), Error> {
    match rest {
        Ok((back, end)) => Ok((front + back, end)),
        Err(e) => Err(e),
    }
}

/// Builds a dictionary with values of the shape `V`. Whatever is no
/// dictionary fails with `ExpectedMap`.
pub struct DictVisitor<V>(pub PhantomData<V>);

impl<'de, V: Deserialize<'de>> Visitor<'de, Dict<V>> for DictVisitor<V> {
    open spec fn model(value: &Dict<V>) -> WireValue {
        WireValue::Dict(entry_models(value.0@))
    }

    open spec fn on_integer(&self, v: int) -> Result<WireValue, Error> {
        Err(Error::ExpectedMap)
    }

    open spec fn on_text(&self, content: Seq<u8>) -> Result<WireValue, Error> {
        Err(Error::ExpectedMap)
    }

    open spec fn on_bytes(&self, content: Seq<u8>) -> Result<WireValue, Error> {
        Err(Error::ExpectedMap)
    }

    open spec fn on_list(&self, bytes: Seq<u8>, pos: int) -> Result<(WireValue, int), Error> {
        Err(Error::ExpectedMap)
    }

    open spec fn on_dict(&self, bytes: Seq<u8>, pos: int) -> Result<(WireValue, int), Error> {
        match entries::<V>(bytes, pos) {
            Ok((found, end)) => Ok((WireValue::Dict(found), end)),
            Err(e) => Err(e),
        }
    }

    fn visit_i64(self, v: i64) -> (r: Result<Dict<V>, Error>) {
        Err(Error::ExpectedMap)
    }

    fn visit_borrowed_str(self, v: &'de str) -> (r: Result<Dict<V>, Error>) {
        Err(Error::ExpectedMap)
    }

    fn visit_borrowed_bytes(self, v: &'de [u8]) -> (r: Result<Dict<V>, Error>) {
        Err(Error::ExpectedMap)
    }

    fn visit_seq(self, seq: ColonSeparated<'_, 'de>) -> (r: Result<Dict<V>, Error>) {
        Err(Error::ExpectedMap)
    }

    fn visit_map(self, map: ColonSeparated<'_, 'de>) -> (r: Result<Dict<V>, Error>) {
        let ghost bytes = map.de.bytes();
        let ghost start = map.de.pos();
        let mut access = map;
        let mut out: Vec<(String, V)> = Vec::new();
        let mut result: Result<(), Error> = Ok(());
        let mut reading = true;
        proof {
            assert(entry_models(out@) =~= Seq::<(Seq<u8>, WireValue)>::empty());
            match entries::<V>(bytes, start) {
                Ok((found, end)) => {
                    assert(Seq::<(Seq<u8>, WireValue)>::empty() + found =~= found);
                },
                Err(e) => {},
            }
        }
        while reading
            invariant
                access.de.bytes() == bytes,
                start <= access.de.pos(),
                *final(access.de) == *final(map.de),
                reading ==> result is Ok,
                reading ==> entries::<V>(bytes, start) == following_entries(
                    entry_models(out@),
                    entries::<V>(bytes, access.de.pos()),
                ),
                !reading ==> match entries::<V>(bytes, start) {
                    Ok((found, end)) => result is Ok && entry_models(out@) == found && access.de.pos() == end,
                    Err(e) => result == Err::<(), Error>(e),
                },
            decreases if reading { bytes.len() - access.de.pos() + 1 } else { 0 },
        {
            let ghost before = entry_models(out@);
            match access.next_key::<String>() {
                Err(e) => {
                    result = Err(e);
                    reading = false;
                },
                Ok(None) => {
                    reading = false;
                    proof {
                        assert(before + Seq::<(Seq<u8>, WireValue)>::empty() =~= before);
                    }
                },
                Ok(Some(key)) => {
                    match access.next_value::<V>() {
                        Err(e) => {
                            result = Err(e);
                            reading = false;
                        },
                        Ok(value) => {
                            let ghost entry = (vstd::utf8::encode_utf8(key@), value.model());
                            out.push((key, value));
                            proof {
                                let next = access.de.pos();
                                assert(entry_models(out@) =~= before + seq![entry]);
                                match entries::<V>(bytes, next) {
                                    Ok((rest, end)) => {
                                        assert(before + (seq![entry] + rest) =~= entry_models(out@) + rest);
                                    },
                                    Err(e) => {},
                                }
                            }
                        },
                    }
                },
            }
        }
        match result {
            Ok(()) => Ok(Dict(out)),
            Err(e) => Err(e),
        }
    }
}

impl<'de, V: Deserialize<'de>> Deserialize<'de> for Dict<V> {
    open spec fn model(&self) -> WireValue {
        WireValue::Dict(entry_models(self.0@))
    }

    open spec fn decoding(bytes: Seq<u8>, pos: int) -> Result<(WireValue, int), Error> {
        crate::de::dict_decoding(&DictVisitor::<V>(PhantomData), bytes, pos)
    }

    fn deserialize(deserializer: &mut Deserializer<'de>) -> (r: Result<Dict<V>, Error>) {
        deserializer.deserialize_map(DictVisitor::<V>(PhantomData))
    }
}

/// What writing `entries` one after the other appends: for each its key as
/// a text and its value right behind, or the reason the first value that
/// cannot be written gives.
pub open spec fn entry_encodings<V: Serialize>(entries: Seq<(String, V)>) -> Result<Seq<u8>, Error>
    decreases entries.len(),
{
    if entries.len() == 0 {
        Ok(Seq::empty())
    } else {
        match entry_encodings(entries.drop_last()) {
            Ok(front) => match entries.last().1.encoding() {
                Ok(value) => Ok(
                    front + wire::encode_byte_string(vstd::utf8::encode_utf8(entries.last().0@)) + value,
                ),
                Err(e) => Err(e),
            },
            Err(e) => Err(e),
        }
    }
}

/// Once a value cannot be written, no longer run of the entries can.
pub proof fn lemma_entry_encodings_failure<V: Serialize>(entries: Seq<(String, V)>, i: int, j: int)
    requires
        0 <= i < j <= entries.len(),
        entry_encodings(entries.take(i)) is Ok,
        entries[i].1.encoding() is Err,
    ensures
        entry_encodings(entries.take(j)) == Err::<Seq<u8>, Error>(entries[i].1.encoding()->Err_0),
    decreases j - i,
{
    assert(entries.take(j).drop_last() =~= entries.take(j - 1));
    if j > i + 1 {
        lemma_entry_encodings_failure(entries, i, j - 1);
    }
}

impl<V: Serialize> Serialize for Dict<V> {
    open spec fn encoding(&self) -> Result<Seq<u8>, Error> {
        match entry_encodings(self.0@) {
            Ok(entries) => Ok(seq![wire::OPEN_DICT] + entries + seq![wire::CLOSE]),
            Err(e) => Err(e),
        }
    }

    #[verifier::loop_isolation(false)]
    fn serialize(&self, serializer: &mut Serializer) -> (r: Result<(), Error>) {
        serializer.serialize_map(Some(self.0.len()))?;
        let mut i: usize = 0;
        while i < self.0.len()
            invariant
                i <= self.0.len(),
                entry_encodings(self.0@.take(i as int)) is Ok,
                serializer@ == old(serializer)@.push(wire::OPEN_DICT) + entry_encodings(
                    self.0@.take(i as int),
                )->Ok_0,
            decreases self.0.len() - i,
        {
            proof {
                wire::lemma_written_is_byte_string(vstd::utf8::encode_utf8(self.0@[i as int].0@));
                assert(self.0@.take(i + 1).drop_last() =~= self.0@.take(i as int));
                if self.0@[i as int].1.encoding() is Err {
                    lemma_entry_encodings_failure(self.0@, i as int, self.0@.len() as int);
                    assert(self.0@.take(self.0@.len() as int) =~= self.0@);
                }
            }
            serializer.serialize_key(&self.0[i].0)?;
            serializer.serialize_value(&self.0[i].1)?;
            i += 1;
        }
        proof {
            assert(self.0@.take(i as int) =~= self.0@);
        }
        serializer.end()
    }
}

} // verus!
