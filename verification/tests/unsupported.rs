//! The kinds of value that the encoding does not have.

use std::marker::PhantomData;

use bencode::de::{from_str, Deserializer};
use bencode::error::Error;
use bencode::impls::Unsupported;
use bencode::ser::{to_bytes, to_str, Serializer};

fn refused(r: Result<(), Error>, serializer: &Serializer) {
    assert_eq!(r, Err(Error::UnsupportedKind));
    let _ = serializer;
}

#[test]
fn unsupported_values_are_not_written() {
    assert_eq!(to_str(&true), Err(Error::UnsupportedKind));
    assert_eq!(to_str(&'c'), Err(Error::UnsupportedKind));
    assert_eq!(to_str(&()), Err(Error::UnsupportedKind));
    assert_eq!(to_str(&1u8), Err(Error::UnsupportedKind));
    assert_eq!(to_str(&1u16), Err(Error::UnsupportedKind));
    assert_eq!(to_str(&1u32), Err(Error::UnsupportedKind));
    assert_eq!(to_str(&1u64), Err(Error::UnsupportedKind));
    assert_eq!(to_str(&Some(1i64)), Err(Error::UnsupportedKind));
    assert_eq!(to_str(&None::<i64>), Err(Error::UnsupportedKind));
    assert_eq!(to_bytes(&vec![1u8, 2]), Err(Error::UnsupportedKind));
}

#[test]
fn writing_stops_at_the_first_unsupported_value() {
    let mut serializer = Serializer::new();
    assert_eq!(serializer.serialize_seq(None), Ok(()));
    assert_eq!(serializer.serialize_element(&1i64), Ok(()));
    assert_eq!(serializer.serialize_element(&true), Err(Error::UnsupportedKind));
    assert_eq!(serializer.into_bytes(), b"li1e");
    assert_eq!(to_str(&vec![Some(1i64)]), Err(Error::UnsupportedKind));
    assert_eq!(to_str(&vec![vec![true]]), Err(Error::UnsupportedKind));
}

#[test]
fn unsupported_shapes_are_not_read() {
    assert_eq!(from_str::<bool>("i1e"), Err(Error::UnsupportedKind));
    assert_eq!(from_str::<char>("1:c"), Err(Error::UnsupportedKind));
    assert_eq!(from_str::<()>("le"), Err(Error::UnsupportedKind));
    assert_eq!(from_str::<u8>("i1e"), Err(Error::UnsupportedKind));
    assert_eq!(from_str::<u16>("i1e"), Err(Error::UnsupportedKind));
    assert_eq!(from_str::<u32>("i1e"), Err(Error::UnsupportedKind));
    assert_eq!(from_str::<u64>("i1e"), Err(Error::UnsupportedKind));
    assert_eq!(from_str::<Option<i64>>("i1e"), Err(Error::UnsupportedKind));
    assert_eq!(from_str::<Vec<bool>>("li1ee"), Err(Error::UnsupportedKind));
    assert_eq!(from_str::<Vec<bool>>("le"), Ok(vec![]));
}

#[test]
fn serializer_refuses_each_unsupported_kind() {
    let mut s = Serializer::new();
    assert_eq!(s.serialize_i64(1), Ok(()));
    let r = s.serialize_bool(true);
    refused(r, &s);
    let r = s.serialize_u8(1);
    refused(r, &s);
    let r = s.serialize_u16(1);
    refused(r, &s);
    let r = s.serialize_u32(1);
    refused(r, &s);
    let r = s.serialize_u64(1);
    refused(r, &s);
    let r = s.serialize_char('c');
    refused(r, &s);
    let r = s.serialize_none();
    refused(r, &s);
    let r = s.serialize_some(&1i64);
    refused(r, &s);
    let r = s.serialize_unit();
    refused(r, &s);
    let r = s.serialize_unit_struct("Unit");
    refused(r, &s);
    let r = s.serialize_unit_variant("Enum", 0, "A");
    refused(r, &s);
    let r = s.serialize_newtype_struct("New", &1i64);
    refused(r, &s);
    let r = s.serialize_newtype_variant("Enum", 1, "B", &1i64);
    refused(r, &s);
    let r = s.serialize_tuple(2);
    refused(r, &s);
    let r = s.serialize_tuple_struct("Pair", 2);
    refused(r, &s);
    let r = s.serialize_tuple_variant("Enum", 2, "C", 2);
    refused(r, &s);
    let r = s.serialize_struct_variant("Enum", 3, "D", 2);
    refused(r, &s);
    // Nothing was written by any of them.
    assert_eq!(s.into_bytes(), b"i1e");
}

#[test]
fn deserializer_refuses_each_unsupported_kind() {
    let mut d = Deserializer::from_str("i1e");
    let v = || Unsupported::<i64>(PhantomData);
    assert_eq!(d.deserialize_bool(v()), Err(Error::UnsupportedKind));
    assert_eq!(d.deserialize_u8(v()), Err(Error::UnsupportedKind));
    assert_eq!(d.deserialize_u16(v()), Err(Error::UnsupportedKind));
    assert_eq!(d.deserialize_u32(v()), Err(Error::UnsupportedKind));
    assert_eq!(d.deserialize_u64(v()), Err(Error::UnsupportedKind));
    assert_eq!(d.deserialize_f32(v()), Err(Error::UnsupportedKind));
    assert_eq!(d.deserialize_f64(v()), Err(Error::UnsupportedKind));
    assert_eq!(d.deserialize_char(v()), Err(Error::UnsupportedKind));
    assert_eq!(d.deserialize_byte_buf(v()), Err(Error::UnsupportedKind));
    assert_eq!(d.deserialize_option(v()), Err(Error::UnsupportedKind));
    assert_eq!(d.deserialize_unit(v()), Err(Error::UnsupportedKind));
    assert_eq!(d.deserialize_unit_struct("Unit", v()), Err(Error::UnsupportedKind));
    assert_eq!(d.deserialize_newtype_struct("New", v()), Err(Error::UnsupportedKind));
    assert_eq!(d.deserialize_tuple(2, v()), Err(Error::UnsupportedKind));
    assert_eq!(d.deserialize_tuple_struct("Pair", 2, v()), Err(Error::UnsupportedKind));
    assert_eq!(d.deserialize_enum("Enum", &["A"], v()), Err(Error::UnsupportedKind));
    // Nothing was read by any of them.
    assert_eq!(d.parse_signed(), Ok(1));
    assert_eq!(d.end(), Ok(()));
}

#[test]
fn the_refusing_visitor_refuses() {
    let mut d = Deserializer::from_str("i1e1:alede");
    assert_eq!(d.deserialize_i64(Unsupported::<i64>(PhantomData)), Err(Error::UnsupportedKind));
    assert_eq!(d.deserialize_str(Unsupported::<i64>(PhantomData)), Err(Error::UnsupportedKind));
    assert_eq!(d.deserialize_seq(Unsupported::<i64>(PhantomData)), Err(Error::UnsupportedKind));
    let mut d = Deserializer::from_str("de");
    assert_eq!(d.deserialize_map(Unsupported::<i64>(PhantomData)), Err(Error::UnsupportedKind));
    let mut d = Deserializer::from_str("1:a");
    assert_eq!(d.deserialize_bytes(Unsupported::<i64>(PhantomData)), Err(Error::UnsupportedKind));
}
