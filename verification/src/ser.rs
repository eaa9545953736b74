//! The encoder: an output buffer and the writers of the grammar.

use vstd::prelude::*;
use vstd::string::StringSliceAdditionalSpecFns;
use crate::de::Deserializer;
use crate::error::Error;
use crate::read::str_from_utf8;
use crate::wire;

verus! {

/// A value that can write itself to a [`Serializer`].
///
/// The spec function says what `serialize` does, and the contracts of the
/// encoder speak of it. A value that does not give it has left what it does
/// unsaid.
pub trait Serialize {
    /// What writing this value appends to the output: its bytes, or the
    /// reason it cannot be written.
    open spec fn encoding(&self) -> Result<Seq<u8>, Error> {
        arbitrary()
    }

    /// Writes this value. Where that fails, what was in the output before is
    /// still there, followed by whatever had been written until then.
    fn serialize(&self, serializer: &mut Serializer) -> (r: Result<(), Error>)
        ensures
            match self.encoding() {
                Ok(bytes) => r is Ok && final(serializer)@ == old(serializer)@ + bytes,
                Err(e) => r == Err::<(), Error>(e) && old(serializer)@.is_prefix_of(final(serializer)@),
            },
    ;
}

/// Whether two runs of bytes are the same.
fn same_bytes(a: &[u8], b: &[u8]) -> (r: bool)
    ensures
        r == (a@ == b@),
{
    if a.len() != b.len() {
        return false;
    }
    let mut i: usize = 0;
    while i < a.len()
        invariant
            i <= a.len(),
            a.len() == b.len(),
            forall|j: int| 0 <= j < i ==> a@[j] == b@[j],
        decreases a.len() - i,
    {
        if a[i] != b[i] {
            return false;
        }
        i += 1;
    }
    proof {
        assert(a@ =~= b@);
    }
    true
}

/// An encoder. It owns the output, which only ever grows.
pub struct Serializer {
    output: Vec<u8>,
}

impl View for Serializer {
    type V = Seq<u8>;

    /// The bytes written so far.
    closed spec fn view(&self) -> Seq<u8> {
        self.output@
    }
}

impl Serializer {
    /// An encoder that has written nothing yet.
    pub fn new() -> (r: Self)
        ensures
            r@ == Seq::<u8>::empty(),
    {
        Serializer { output: Vec::new() }
    }

    /// Hands the output over.
    pub fn into_bytes(self) -> (r: Vec<u8>)
        ensures
            r@ == self@,
    {
        self.output
    }

    /// Writes the decimal digits of `n`.
    fn write_decimal(&mut self, n: u64)
        ensures
            final(self)@ == old(self)@ + wire::decimal(n as nat),
        decreases n,
    {
        if n >= 10 {
            self.write_decimal(n / 10);
        }
        self.output.push(wire::ZERO + (n % 10) as u8);
    }

    /// Writes `bytes` as they are.
    fn write_raw(&mut self, bytes: &[u8])
        ensures
            final(self)@ == old(self)@ + bytes@,
    {
        self.output.extend_from_slice(bytes);
    }

    /// Writes an integer: `i`, the decimal digits of `v` behind a `-` where
    /// `v` is negative, `e`.
    pub fn serialize_i64(&mut self, v: i64) -> (r: Result<(), Error>)
        ensures
            r is Ok,
            final(self)@ == old(self)@ + wire::encode_integer(v as int),
    {
        self.output.push(wire::OPEN_INTEGER);
        if v < 0 {
            self.output.push(wire::MINUS);
            self.write_decimal((-(v + 1)) as u64 + 1);
        } else {
            self.write_decimal(v as u64);
        }
        self.output.push(wire::CLOSE);
        Ok(())
    }

    /// Writes a byte string: the decimal length of `v`, `:`, the bytes of `v`.
    pub fn serialize_bytes(&mut self, v: &[u8]) -> (r: Result<(), Error>)
        ensures
            r is Ok,
            final(self)@ == old(self)@ + wire::encode_byte_string(v@),
    {
        self.write_decimal(v.len() as u64);
        self.output.push(wire::COLON);
        self.write_raw(v);
        Ok(())
    }

    /// Writes a text as the byte string of its UTF-8 bytes.
    pub fn serialize_str(&mut self, v: &str) -> (r: Result<(), Error>)
        ensures
            r is Ok,
            final(self)@ == old(self)@ + wire::encode_byte_string(v.spec_bytes()),
    {
        self.serialize_bytes(v.as_bytes())
    }

    /// Writes an integer of eight bits as any other.
    pub fn serialize_i8(&mut self, v: i8) -> (r: Result<(), Error>)
        ensures
            r is Ok,
            final(self)@ == old(self)@ + wire::encode_integer(v as int),
    {
        self.serialize_i64(v as i64)
    }

    /// Writes an integer of sixteen bits as any other.
    pub fn serialize_i16(&mut self, v: i16) -> (r: Result<(), Error>)
        ensures
            r is Ok,
            final(self)@ == old(self)@ + wire::encode_integer(v as int),
    {
        self.serialize_i64(v as i64)
    }

    /// Writes an integer of thirty-two bits as any other.
    pub fn serialize_i32(&mut self, v: i32) -> (r: Result<(), Error>)
        ensures
            r is Ok,
            final(self)@ == old(self)@ + wire::encode_integer(v as int),
    {
        self.serialize_i64(v as i64)
    }

    /// Opens a list: `l`. The elements follow, then `end`.
    pub fn serialize_seq(&mut self, _len: Option<usize>) -> (r: Result<(), Error>)
        ensures
            r is Ok,
            final(self)@ == old(self)@.push(wire::OPEN_LIST),
    {
        self.output.push(wire::OPEN_LIST);
        Ok(())
    }

    /// Opens a dictionary: `d`. The entries follow, each a key and then its
    /// value, then `end`.
    pub fn serialize_map(&mut self, _len: Option<usize>) -> (r: Result<(), Error>)
        ensures
            r is Ok,
            final(self)@ == old(self)@.push(wire::OPEN_DICT),
    {
        self.output.push(wire::OPEN_DICT);
        Ok(())
    }

    /// Opens a record, which is written as a dictionary whose keys are the
    /// names of its fields. The fields follow, then `end`.
    pub fn serialize_struct(&mut self, _name: &'static str, len: usize) -> (r: Result<(), Error>)
        ensures
            r is Ok,
            final(self)@ == old(self)@.push(wire::OPEN_DICT),
    {
        self.serialize_map(Some(len))
    }

    /// Writes one element of an open list.
    pub fn serialize_element<T: Serialize + ?Sized>(&mut self, value: &T) -> (r: Result<(), Error>)
        ensures
            match value.encoding() {
                Ok(bytes) => r is Ok && final(self)@ == old(self)@ + bytes,
                Err(e) => r == Err::<(), Error>(e) && old(self)@.is_prefix_of(final(self)@),
            },
    {
        value.serialize(self)
    }

    /// Writes one field of an open record: its name as a text, then its value
    /// right behind. Fields are written in the order in which they come.
    pub fn serialize_field<T: Serialize + ?Sized>(&mut self, key: &'static str, value: &T) -> (r: Result<
        (),
        Error,
    >)
        ensures
            match value.encoding() {
                Ok(bytes) => r is Ok && final(self)@ == old(self)@ + wire::encode_byte_string(key.spec_bytes())
                    + bytes,
                Err(e) => r == Err::<(), Error>(e) && old(self)@.is_prefix_of(final(self)@),
            },
    {
        self.serialize_str(key)?;
        value.serialize(self)
    }

    /// Writes the key of one entry of an open dictionary.
    ///
    /// A key has to be a text or a byte string. One that writes itself as
    /// anything else is refused with `UnsupportedKind`, and one that cannot
    /// be written fails for its own reason; either way nothing is written.
    pub fn serialize_key<T: Serialize + ?Sized>(&mut self, key: &T) -> (r: Result<(), Error>)
        ensures
            match key.encoding() {
                Ok(bytes) => if wire::is_byte_string(bytes) {
                    r is Ok && final(self)@ == old(self)@ + bytes
                } else {
                    r == Err::<(), Error>(Error::UnsupportedKind) && final(self)@ == old(self)@
                },
                Err(e) => r == Err::<(), Error>(e) && final(self)@ == old(self)@,
            },
    {
        let mut scratch = Serializer::new();
        key.serialize(&mut scratch)?;
        let written: Vec<u8> = scratch.into_bytes();
        let mut check = Deserializer::from_bytes(written.as_slice());
        match check.parse_bytes() {
            Ok(content) => {
                let mut again = Serializer::new();
                let _ = again.serialize_bytes(content);
                if same_bytes(again.output.as_slice(), written.as_slice()) {
                    self.write_raw(written.as_slice());
                    Ok(())
                } else {
                    Err(Error::UnsupportedKind)
                }
            },
            Err(_) => Err(Error::UnsupportedKind),
        }
    }

    /// Writes the value of one entry of an open dictionary, right behind its
    /// key.
    pub fn serialize_value<T: Serialize + ?Sized>(&mut self, value: &T) -> (r: Result<(), Error>)
        ensures
            match value.encoding() {
                Ok(bytes) => r is Ok && final(self)@ == old(self)@ + bytes,
                Err(e) => r == Err::<(), Error>(e) && old(self)@.is_prefix_of(final(self)@),
            },
    {
        value.serialize(self)
    }

    /// Refuses to write a truth value, which this encoding does not have.
    pub fn serialize_bool(&mut self, _v: bool) -> (r: Result<(), Error>)
        ensures
            r == Err::<(), Error>(Error::UnsupportedKind),
            final(self)@ == old(self)@,
    {
        Err(Error::UnsupportedKind)
    }

    /// Refuses to write an unsigned integer of eight bits, which this encoding does not have.
    pub fn serialize_u8(&mut self, _v: u8) -> (r: Result<(), Error>)
        ensures
            r == Err::<(), Error>(Error::UnsupportedKind),
            final(self)@ == old(self)@,
    {
        Err(Error::UnsupportedKind)
    }

    /// Refuses to write an unsigned integer of sixteen bits, which this encoding does not have.
    pub fn serialize_u16(&mut self, _v: u16) -> (r: Result<(), Error>)
        ensures
            r == Err::<(), Error>(Error::UnsupportedKind),
            final(self)@ == old(self)@,
    {
        Err(Error::UnsupportedKind)
    }

    /// Refuses to write an unsigned integer of thirty-two bits, which this encoding does not have.
    pub fn serialize_u32(&mut self, _v: u32) -> (r: Result<(), Error>)
        ensures
            r == Err::<(), Error>(Error::UnsupportedKind),
            final(self)@ == old(self)@,
    {
        Err(Error::UnsupportedKind)
    }

    /// Refuses to write an unsigned integer of sixty-four bits, which this encoding does not have.
    pub fn serialize_u64(&mut self, _v: u64) -> (r: Result<(), Error>)
        ensures
            r == Err::<(), Error>(Error::UnsupportedKind),
            final(self)@ == old(self)@,
    {
        Err(Error::UnsupportedKind)
    }

    /// Refuses to write a single character, which this encoding does not have.
    pub fn serialize_char(&mut self, _v: char) -> (r: Result<(), Error>)
        ensures
            r == Err::<(), Error>(Error::UnsupportedKind),
            final(self)@ == old(self)@,
    {
        Err(Error::UnsupportedKind)
    }

    /// Refuses to write a value that is missing, which this encoding does not have.
    pub fn serialize_none(&mut self) -> (r: Result<(), Error>)
        ensures
            r == Err::<(), Error>(Error::UnsupportedKind),
            final(self)@ == old(self)@,
    {
        Err(Error::UnsupportedKind)
    }

    /// Refuses to write a value that might have been missing, which this encoding does not have.
    pub fn serialize_some<T: ?Sized>(&mut self, _value: &T) -> (r: Result<(), Error>)
        ensures
            r == Err::<(), Error>(Error::UnsupportedKind),
            final(self)@ == old(self)@,
    {
        Err(Error::UnsupportedKind)
    }

    /// Refuses to write the empty value, which this encoding does not have.
    pub fn serialize_unit(&mut self) -> (r: Result<(), Error>)
        ensures
            r == Err::<(), Error>(Error::UnsupportedKind),
            final(self)@ == old(self)@,
    {
        Err(Error::UnsupportedKind)
    }

    /// Refuses to write a record without fields, which this encoding does not have.
    pub fn serialize_unit_struct(&mut self, _name: &'static str) -> (r: Result<(), Error>)
        ensures
            r == Err::<(), Error>(Error::UnsupportedKind),
            final(self)@ == old(self)@,
    {
        Err(Error::UnsupportedKind)
    }

    /// Refuses to write a variant without fields, which this encoding does not have.
    pub fn serialize_unit_variant(
        &mut self,
        _name: &'static str,
        _variant_index: u32,
        _variant: &'static str,
    ) -> (r: Result<(), Error>)
        ensures
            r == Err::<(), Error>(Error::UnsupportedKind),
            final(self)@ == old(self)@,
    {
        Err(Error::UnsupportedKind)
    }

    /// Refuses to write a record around one value, which this encoding does not have.
    pub fn serialize_newtype_struct<T: ?Sized>(
        &mut self,
        _name: &'static str,
        _value: &T,
    ) -> (r: Result<(), Error>)
        ensures
            r == Err::<(), Error>(Error::UnsupportedKind),
            final(self)@ == old(self)@,
    {
        Err(Error::UnsupportedKind)
    }

    /// Refuses to write a variant around one value, which this encoding does not have.
    pub fn serialize_newtype_variant<T: ?Sized>(
        &mut self,
        _name: &'static str,
        _variant_index: u32,
        _variant: &'static str,
        _value: &T,
    ) -> (r: Result<(), Error>)
        ensures
            r == Err::<(), Error>(Error::UnsupportedKind),
            final(self)@ == old(self)@,
    {
        Err(Error::UnsupportedKind)
    }

    /// Refuses to write a tuple, which this encoding does not have.
    pub fn serialize_tuple(&mut self, _len: usize) -> (r: Result<(), Error>)
        ensures
            r == Err::<(), Error>(Error::UnsupportedKind),
            final(self)@ == old(self)@,
    {
        Err(Error::UnsupportedKind)
    }

    /// Refuses to write a record of unnamed fields, which this encoding does not have.
    pub fn serialize_tuple_struct(&mut self, _name: &'static str, _len: usize) -> (r: Result<(), Error>)
        ensures
            r == Err::<(), Error>(Error::UnsupportedKind),
            final(self)@ == old(self)@,
    {
        Err(Error::UnsupportedKind)
    }

    /// Refuses to write a variant of unnamed fields, which this encoding does not have.
    pub fn serialize_tuple_variant(
        &mut self,
        _name: &'static str,
        _variant_index: u32,
        _variant: &'static str,
        _len: usize,
    ) -> (r: Result<(), Error>)
        ensures
            r == Err::<(), Error>(Error::UnsupportedKind),
            final(self)@ == old(self)@,
    {
        Err(Error::UnsupportedKind)
    }

    /// Refuses to write a variant of named fields, which this encoding does not have.
    pub fn serialize_struct_variant(
        &mut self,
        _name: &'static str,
        _variant_index: u32,
        _variant: &'static str,
        _len: usize,
    ) -> (r: Result<(), Error>)
        ensures
            r == Err::<(), Error>(Error::UnsupportedKind),
            final(self)@ == old(self)@,
    {
        Err(Error::UnsupportedKind)
    }

    /// Closes the list, dictionary or record that is open: `e`.
    pub fn end(&mut self) -> (r: Result<(), Error>)
        ensures
            r is Ok,
            final(self)@ == old(self)@.push(wire::CLOSE),
    {
        self.output.push(wire::CLOSE);
        Ok(())
    }
}

/// What `to_bytes` owes for `value`: its bytes, or the reason it cannot be
/// written.
pub open spec fn bytes_written<T: Serialize + ?Sized>(value: &T, r: Result<Vec<u8>, Error>) -> bool {
    match value.encoding() {
        Ok(bytes) => r is Ok && r.unwrap()@ == bytes,
        Err(e) => r == Err::<Vec<u8>, Error>(e),
    }
}

/// What `to_str` owes for `value`: its bytes as a text, `InvalidText` where
/// they are not valid UTF-8, or the reason it cannot be written.
pub open spec fn text_written<T: Serialize + ?Sized>(value: &T, r: Result<String, Error>) -> bool {
    match value.encoding() {
        Ok(bytes) => if vstd::utf8::valid_utf8(bytes) {
            r is Ok && vstd::utf8::encode_utf8(r.unwrap()@) == bytes
        } else {
            r == Err::<String, Error>(Error::InvalidText)
        },
        Err(e) => r == Err::<String, Error>(e),
    }
}

/// Encodes `value` to bytes.
pub fn to_bytes<T: Serialize + ?Sized>(value: &T) -> (r: Result<Vec<u8>, Error>)
    ensures
        bytes_written(value, r),
{
    let mut serializer = Serializer::new();
    value.serialize(&mut serializer)?;
    Ok(serializer.into_bytes())
}

/// Encodes `value` to a text.
///
/// A value that holds byte strings which are not valid UTF-8 has no text: it
/// fails with `InvalidText`, and `to_bytes` is there for it.
pub fn to_str<T: Serialize + ?Sized>(value: &T) -> (r: Result<String, Error>)
    ensures
        text_written(value, r),
{
    let output = to_bytes(value)?;
    match str_from_utf8(output.as_slice()) {
        Ok(text) => Ok(text.to_owned()),
        Err(_) => Err(Error::InvalidText),
    }
}

} // verus!
