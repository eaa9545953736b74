//! Lists and dictionaries on the wire, and the visitors that read them.

use std::marker::PhantomData;

use bencode::de::{from_bytes, from_str, ColonSeparated, Deserializer, Visitor};
use bencode::error::Error;
use bencode::impls::{Bytes, Dict, DictVisitor, IntegerVisitor, StrVisitor, VecVisitor};
use bencode::ser::{to_bytes, to_str, Serialize, Serializer};

fn dict<V>(entries: Vec<(&str, V)>) -> Dict<V> {
    Dict(entries.into_iter().map(|(key, value)| (key.to_string(), value)).collect())
}

/// Reads the first element of a list and leaves the rest unread.
struct FirstOnly;

impl<'de> Visitor<'de, Option<String>> for FirstOnly {
    fn visit_i64(self, _v: i64) -> Result<Option<String>, Error> {
        Err(Error::ExpectedList)
    }

    fn visit_borrowed_str(self, v: &'de str) -> Result<Option<String>, Error> {
        Ok(Some(v.to_string()))
    }

    fn visit_borrowed_bytes(self, _v: &'de [u8]) -> Result<Option<String>, Error> {
        Err(Error::ExpectedList)
    }

    fn visit_seq(self, mut seq: ColonSeparated<'_, 'de>) -> Result<Option<String>, Error> {
        seq.next_element_seed(PhantomData::<String>)
    }

    fn visit_map(self, mut map: ColonSeparated<'_, 'de>) -> Result<Option<String>, Error> {
        match map.next_key_seed(PhantomData::<String>)? {
            Some(_) => Ok(Some(map.next_value_seed(PhantomData::<String>)?)),
            None => Ok(None),
        }
    }
}

/// Fails in its own words, whatever it is handed.
struct Picky;

impl<'de> Visitor<'de, ()> for Picky {
    fn visit_i64(self, v: i64) -> Result<(), Error> {
        Err(Error::custom(&format!("no use for {}", v)))
    }

    fn visit_borrowed_str(self, v: &'de str) -> Result<(), Error> {
        Err(Error::custom(&format!("no use for {:?}", v)))
    }

    fn visit_borrowed_bytes(self, _v: &'de [u8]) -> Result<(), Error> {
        Err(Error::custom("no use for bytes"))
    }

    fn visit_seq(self, _seq: ColonSeparated<'_, 'de>) -> Result<(), Error> {
        Err(Error::custom("no use for a list"))
    }

    fn visit_map(self, _map: ColonSeparated<'_, 'de>) -> Result<(), Error> {
        Err(Error::custom("no use for a dictionary"))
    }
}

/// Cannot be written, and says why.
struct Refusing;

impl Serialize for Refusing {
    fn serialize(&self, _serializer: &mut Serializer) -> Result<(), Error> {
        Err(Error::custom("no key"))
    }
}

/// Writes two texts where one value is due.
struct Twice;

impl Serialize for Twice {
    fn serialize(&self, serializer: &mut Serializer) -> Result<(), Error> {
        serializer.serialize_str("a")?;
        serializer.serialize_str("b")
    }
}

#[test]
fn empty_list_is_le() {
    assert_eq!(to_str(&Vec::<String>::new()).unwrap(), "le");
    assert_eq!(to_str(&Vec::<i64>::new()).unwrap(), "le");
    assert_eq!(from_str::<Vec<String>>("le"), Ok(vec![]));
    assert_eq!(from_str::<Vec<i64>>("le"), Ok(vec![]));
}

#[test]
fn empty_dict_is_de() {
    assert_eq!(to_str(&Dict::<i64>(vec![])).unwrap(), "de");
    assert_eq!(from_str::<Dict<i64>>("de"), Ok(Dict(vec![])));
}

#[test]
fn list_of_texts_in_order() {
    let list = vec!["a".to_string(), "b".to_string(), "c".to_string()];
    assert_eq!(to_str(&list).unwrap(), "l1:a1:b1:ce");
    assert_eq!(from_str::<Vec<String>>("l1:a1:b1:ce"), Ok(list));
    assert_eq!(from_str::<Vec<&str>>("l1:c1:b1:ae"), Ok(vec!["c", "b", "a"]));
}

#[test]
fn list_of_integers() {
    assert_eq!(to_str(&vec![1i64, -2, 30]).unwrap(), "li1ei-2ei30ee");
    assert_eq!(from_str::<Vec<i64>>("li1ei-2ei30ee"), Ok(vec![1, -2, 30]));
    assert_eq!(from_str::<Vec<i8>>("li1ei-2ei30ee"), Ok(vec![1, -2, 30]));
    assert_eq!(from_str::<Vec<i8>>("li1ei-2ei300ee"), Err(Error::ExpectedInteger));
}

#[test]
fn lists_nest() {
    let nested = vec![vec![1i64, 2], vec![], vec![3]];
    assert_eq!(to_str(&nested).unwrap(), "lli1ei2eeleli3eee");
    assert_eq!(from_str::<Vec<Vec<i64>>>("lli1ei2eeleli3eee"), Ok(nested));
    assert_eq!(from_str::<Vec<Vec<Vec<i64>>>>("llleee"), Ok(vec![vec![vec![]]]));
    assert_eq!(to_str(&vec![vec![Vec::<i64>::new()]]).unwrap(), "llleee");
}

#[test]
fn list_of_references() {
    let a = String::from("x");
    let b = String::from("yz");
    assert_eq!(to_str(&vec![&a, &b]).unwrap(), "l1:x2:yze");
    assert_eq!(to_str(&vec!["x", "yz"]).unwrap(), "l1:x2:yze");
}

#[test]
fn a_list_opens_with_l() {
    assert_eq!(from_str::<Vec<i64>>("i1e"), Err(Error::ExpectedList));
    assert_eq!(from_str::<Vec<i64>>("de"), Err(Error::ExpectedList));
    assert_eq!(from_str::<Vec<i64>>("e"), Err(Error::ExpectedList));
    assert_eq!(from_str::<Vec<i64>>(""), Err(Error::Eof));
}

#[test]
fn a_list_cut_short() {
    assert_eq!(from_str::<Vec<i64>>("l"), Err(Error::Eof));
    assert_eq!(from_str::<Vec<i64>>("li1e"), Err(Error::Eof));
    assert_eq!(from_str::<Vec<Vec<i64>>>("lle"), Err(Error::Eof));
    assert_eq!(from_str::<Vec<String>>("l3:ab"), Err(Error::BufferTooShort));
}

#[test]
fn a_list_of_the_wrong_elements() {
    assert_eq!(from_str::<Vec<i64>>("l1:ae"), Err(Error::ExpectedI));
    assert_eq!(from_str::<Vec<String>>("li1ee"), Err(Error::ExpectedColon));
    assert_eq!(from_str::<Vec<Vec<i64>>>("li1ee"), Err(Error::ExpectedList));
}

#[test]
fn a_visitor_that_stops_early_leaves_the_list_open() {
    let mut deserializer = Deserializer::from_str("l1:a1:be");
    assert_eq!(deserializer.deserialize_seq(FirstOnly), Err(Error::ExpectedListEnd));
    let mut deserializer = Deserializer::from_str("l1:ae");
    assert_eq!(deserializer.deserialize_seq(FirstOnly), Ok(Some("a".to_string())));
    assert_eq!(deserializer.end(), Ok(()));
    let mut deserializer = Deserializer::from_str("le");
    assert_eq!(deserializer.deserialize_seq(FirstOnly), Ok(None));
    let mut deserializer = Deserializer::from_str("l1:a");
    assert_eq!(deserializer.deserialize_seq(FirstOnly), Err(Error::Eof));
}

#[test]
fn a_visitor_that_stops_early_leaves_the_dict_open() {
    let mut deserializer = Deserializer::from_str("d1:a1:b1:c1:de");
    assert_eq!(deserializer.deserialize_map(FirstOnly), Err(Error::ExpectedMapEnd));
    let mut deserializer = Deserializer::from_str("d1:a1:be");
    assert_eq!(deserializer.deserialize_map(FirstOnly), Ok(Some("b".to_string())));
    let mut deserializer = Deserializer::from_str("d1:a1:be");
    assert_eq!(
        deserializer.deserialize_struct("First", &["a"], FirstOnly),
        Ok(Some("b".to_string()))
    );
}

#[test]
fn dict_keeps_the_order_of_its_entries() {
    let entries = dict(vec![("b", 2i64), ("a", 1), ("c", 3)]);
    assert_eq!(to_str(&entries).unwrap(), "d1:bi2e1:ai1e1:ci3ee");
    assert_eq!(from_str::<Dict<i64>>("d1:bi2e1:ai1e1:ci3ee"), Ok(entries));
}

#[test]
fn dict_keeps_keys_that_come_twice() {
    let entries = dict(vec![("a", 1i64), ("a", 2)]);
    assert_eq!(to_str(&entries).unwrap(), "d1:ai1e1:ai2ee");
    assert_eq!(from_str::<Dict<i64>>("d1:ai1e1:ai2ee"), Ok(entries));
}

#[test]
fn dict_of_texts() {
    let entries = dict(vec![("a", "hello".to_string())]);
    assert_eq!(to_str(&entries).unwrap(), "d1:a5:helloe");
    assert_eq!(from_str::<Dict<String>>("d1:a5:helloe"), Ok(entries));
}

#[test]
fn dicts_and_lists_nest() {
    let value = dict(vec![("a", vec![dict(vec![("b", 1i64)]), dict(vec![])]), ("", vec![])]);
    let text = "d1:ald1:bi1eedee0:lee";
    assert_eq!(to_str(&value).unwrap(), text);
    assert_eq!(from_str::<Dict<Vec<Dict<i64>>>>(text), Ok(value));
}

#[test]
fn dict_of_byte_strings() {
    let value = Dict(vec![("k".to_string(), Bytes(&[0xff]))]);
    assert_eq!(to_bytes(&value).unwrap(), b"d1:k1:\xffe");
    assert_eq!(from_bytes::<Dict<Bytes>>(b"d1:k1:\xffe"), Ok(value));
}

#[test]
fn a_dict_opens_with_d() {
    assert_eq!(from_str::<Dict<i64>>("le"), Err(Error::ExpectedMap));
    assert_eq!(from_str::<Dict<i64>>("1:a"), Err(Error::ExpectedMap));
    assert_eq!(from_str::<Dict<i64>>(""), Err(Error::Eof));
}

#[test]
fn a_dict_with_a_dangling_key() {
    assert_eq!(from_str::<Dict<String>>("d1:ae"), Err(Error::ExpectedColon));
    assert_eq!(from_str::<Dict<i64>>("d1:ae"), Err(Error::ExpectedI));
    assert_eq!(from_str::<Dict<i64>>("d1:a"), Err(Error::Eof));
    assert_eq!(from_str::<Dict<i64>>("d1:ai1e1:be"), Err(Error::ExpectedI));
}

#[test]
fn a_dict_with_a_key_that_is_no_text() {
    assert_eq!(from_str::<Dict<i64>>("di1ei2ee"), Err(Error::ExpectedColon));
    assert_eq!(from_str::<Dict<i64>>("d:i2ee"), Err(Error::ExpectedInteger));
    assert_eq!(from_bytes::<Dict<i64>>(b"d1:\xffi2ee"), Err(Error::InvalidText));
}

#[test]
fn a_dict_cut_short() {
    assert_eq!(from_str::<Dict<i64>>("d"), Err(Error::Eof));
    assert_eq!(from_str::<Dict<i64>>("d1:ai1e"), Err(Error::Eof));
}

#[test]
fn any_goes_by_the_first_byte() {
    let mut deserializer = Deserializer::from_str("1:a");
    assert_eq!(deserializer.deserialize_any(FirstOnly), Ok(Some("a".to_string())));
    let mut deserializer = Deserializer::from_str("d1:a1:be");
    assert_eq!(deserializer.deserialize_any(FirstOnly), Ok(Some("b".to_string())));
    let mut deserializer = Deserializer::from_str("d1:a1:be");
    assert_eq!(deserializer.deserialize_ignored_any(FirstOnly), Ok(Some("b".to_string())));
}

#[test]
fn any_knows_no_integers_and_no_lists() {
    let mut deserializer = Deserializer::from_str("i1e");
    assert_eq!(deserializer.deserialize_any(FirstOnly), Err(Error::Syntax));
    let mut deserializer = Deserializer::from_str("l1:ae");
    assert_eq!(deserializer.deserialize_any(FirstOnly), Err(Error::Syntax));
    let mut deserializer = Deserializer::from_str("x");
    assert_eq!(deserializer.deserialize_any(FirstOnly), Err(Error::Syntax));
    let mut deserializer = Deserializer::from_str("e");
    assert_eq!(deserializer.deserialize_any(FirstOnly), Err(Error::Syntax));
    let mut deserializer = Deserializer::from_str("");
    assert_eq!(deserializer.deserialize_any(FirstOnly), Err(Error::Eof));
}

#[test]
fn any_looks_at_the_first_byte_and_leaves_it() {
    for input in ["i1e", "l1:ae", "x", "e", ":", "-1"] {
        let mut deserializer = Deserializer::from_str(input);
        assert_eq!(deserializer.deserialize_any(Picky), Err(Error::Syntax));
        assert_eq!(deserializer.peek_char(), Ok(input.as_bytes()[0]));
        assert_eq!(deserializer.deserialize_ignored_any(Picky), Err(Error::Syntax));
        assert_eq!(deserializer.next_char(), Ok(input.as_bytes()[0]));
    }
    let mut deserializer = Deserializer::from_str("i7e");
    assert_eq!(deserializer.deserialize_any(FirstOnly), Err(Error::Syntax));
    assert_eq!(deserializer.parse_signed(), Ok(7));
    let mut deserializer = Deserializer::from_str("");
    assert_eq!(deserializer.deserialize_any(Picky), Err(Error::Eof));
    assert_eq!(deserializer.end(), Ok(()));
}

#[test]
fn a_key_has_to_be_a_byte_string() {
    let mut serializer = Serializer::new();
    assert_eq!(serializer.serialize_map(None), Ok(()));
    assert_eq!(serializer.serialize_key(&5i32), Err(Error::UnsupportedKind));
    assert_eq!(serializer.serialize_key(&vec!["a"]), Err(Error::UnsupportedKind));
    assert_eq!(serializer.serialize_key(&Dict::<i64>(vec![])), Err(Error::UnsupportedKind));
    assert_eq!(serializer.serialize_key(&true), Err(Error::UnsupportedKind));
    assert_eq!(serializer.serialize_key("a"), Ok(()));
    assert_eq!(serializer.serialize_value(&5i32), Ok(()));
    assert_eq!(serializer.serialize_key(&Bytes(&[0xff])), Ok(()));
    assert_eq!(serializer.serialize_value("v"), Ok(()));
    assert_eq!(serializer.serialize_key(&String::new()), Ok(()));
    assert_eq!(serializer.serialize_value(&Vec::<i64>::new()), Ok(()));
    assert_eq!(serializer.end(), Ok(()));
    // The keys that were refused left nothing behind.
    assert_eq!(serializer.into_bytes(), b"d1:ai5e1:\xff1:v0:lee");
}

#[test]
fn a_key_that_fails_fails_for_its_own_reason() {
    let mut serializer = Serializer::new();
    assert_eq!(serializer.serialize_key(&Some(1i64)), Err(Error::UnsupportedKind));
    assert_eq!(serializer.serialize_key(&Refusing), Err(Error::Message("no key".to_string())));
    assert_eq!(serializer.serialize_key(&Twice), Err(Error::UnsupportedKind));
    assert_eq!(serializer.into_bytes(), b"");
}

#[test]
fn any_hands_the_visitor_what_it_finds() {
    let mut deserializer = Deserializer::from_str("1:a");
    assert_eq!(
        deserializer.deserialize_any(IntegerVisitor { low: 0, high: 9 }),
        Err(Error::ExpectedInteger)
    );
    let mut deserializer = Deserializer::from_str("de");
    assert_eq!(deserializer.deserialize_any(StrVisitor), Err(Error::ExpectedColon));
    let mut deserializer = Deserializer::from_str("de");
    assert_eq!(
        deserializer.deserialize_any(VecVisitor::<i64>(PhantomData)),
        Err(Error::ExpectedList)
    );
    let mut deserializer = Deserializer::from_str("1:a");
    assert_eq!(
        deserializer.deserialize_any(DictVisitor::<i64>(PhantomData)),
        Err(Error::ExpectedMap)
    );
    let mut deserializer = Deserializer::from_str("d1:ai1ee");
    assert_eq!(
        deserializer.deserialize_any(DictVisitor::<i64>(PhantomData)),
        Ok(Dict(vec![("a".to_string(), 1)]))
    );
}

#[test]
fn a_visitor_fails_in_its_own_words() {
    let mut deserializer = Deserializer::from_str("i7e");
    assert_eq!(
        deserializer.deserialize_i64(Picky),
        Err(Error::Message("no use for 7".to_string()))
    );
    let mut deserializer = Deserializer::from_str("1:a");
    assert_eq!(
        deserializer.deserialize_identifier(Picky),
        Err(Error::Message("no use for \"a\"".to_string()))
    );
    let mut deserializer = Deserializer::from_str("le");
    assert_eq!(
        deserializer.deserialize_seq(Picky),
        Err(Error::Message("no use for a list".to_string()))
    );
    let mut deserializer = Deserializer::from_str("de");
    assert_eq!(
        deserializer.deserialize_map(Picky),
        Err(Error::Message("no use for a dictionary".to_string()))
    );
    let mut deserializer = Deserializer::from_str("1:a");
    assert_eq!(
        deserializer.deserialize_bytes(Picky),
        Err(Error::Message("no use for bytes".to_string()))
    );
}

#[test]
fn the_adapter_tells_the_end_by_one_byte() {
    let mut deserializer = Deserializer::from_str("i1ee");
    let mut access = ColonSeparated::new(&mut deserializer);
    assert_eq!(access.next_element_seed(PhantomData::<i64>), Ok(Some(1)));
    assert_eq!(access.next_element_seed(PhantomData::<i64>), Ok(None));
    assert_eq!(access.next_element_seed(PhantomData::<i64>), Ok(None));
    assert_eq!(access.next_key_seed(PhantomData::<String>), Ok(None));
    // The end was looked at, not consumed.
    assert_eq!(deserializer.next_char(), Ok(b'e'));
    let mut access = ColonSeparated::new(&mut deserializer);
    assert_eq!(access.next_element_seed(PhantomData::<i64>), Err(Error::Eof));
    assert_eq!(access.next_key_seed(PhantomData::<i64>), Err(Error::Eof));
}

#[test]
fn the_adapter_reads_a_value_whatever_comes_next() {
    let mut deserializer = Deserializer::from_str("e");
    let mut access = ColonSeparated::new(&mut deserializer);
    assert_eq!(access.next_value_seed(PhantomData::<i64>), Err(Error::ExpectedI));
    let mut deserializer = Deserializer::from_str("i1e1:a");
    let mut access = ColonSeparated::new(&mut deserializer);
    assert_eq!(access.next_value_seed(PhantomData::<i64>), Ok(1));
    assert_eq!(access.next_value_seed(PhantomData::<&str>), Ok("a"));
    assert_eq!(access.next_value_seed(PhantomData::<&str>), Err(Error::Eof));
}

#[test]
fn the_adapter_reads_by_shape() {
    let mut deserializer = Deserializer::from_str("1:ai1e1:bi2eeli3ee");
    let mut access = ColonSeparated::new(&mut deserializer);
    assert_eq!(access.next_key::<&str>(), Ok(Some("a")));
    assert_eq!(access.next_value::<i64>(), Ok(1));
    assert_eq!(access.next_key::<String>(), Ok(Some("b".to_string())));
    assert_eq!(access.next_value::<i8>(), Ok(2));
    assert_eq!(access.next_key::<String>(), Ok(None));
    assert_eq!(deserializer.next_char(), Ok(b'e'));
    assert_eq!(deserializer.next_char(), Ok(b'l'));
    let mut access = ColonSeparated::new(&mut deserializer);
    assert_eq!(access.next_element::<i64>(), Ok(Some(3)));
    assert_eq!(access.next_element::<i64>(), Ok(None));
    assert_eq!(deserializer.next_char(), Ok(b'e'));
    let mut access = ColonSeparated::new(&mut deserializer);
    assert_eq!(access.next_element::<i64>(), Err(Error::Eof));
    assert_eq!(access.next_key::<i64>(), Err(Error::Eof));
    assert_eq!(access.next_value::<i64>(), Err(Error::Eof));
}

#[test]
fn serializer_writes_containers_piece_by_piece() {
    let mut serializer = Serializer::new();
    assert_eq!(serializer.serialize_map(None), Ok(()));
    assert_eq!(serializer.serialize_key("list"), Ok(()));
    assert_eq!(serializer.serialize_seq(Some(2)), Ok(()));
    assert_eq!(serializer.serialize_element(&1i64), Ok(()));
    assert_eq!(serializer.serialize_element("two"), Ok(()));
    assert_eq!(serializer.end(), Ok(()));
    assert_eq!(serializer.serialize_key("n"), Ok(()));
    assert_eq!(serializer.serialize_value(&-1i32), Ok(()));
    assert_eq!(serializer.end(), Ok(()));
    assert_eq!(serializer.into_bytes(), b"d4:listli1e3:twoe1:ni-1ee");
}

#[test]
fn serializer_writes_records_field_by_field() {
    let mut serializer = Serializer::new();
    assert_eq!(serializer.serialize_struct("Point", 2), Ok(()));
    assert_eq!(serializer.serialize_field("y", &2i64), Ok(()));
    assert_eq!(serializer.serialize_field("x", &1i64), Ok(()));
    assert_eq!(serializer.end(), Ok(()));
    assert_eq!(serializer.into_bytes(), b"d1:yi2e1:xi1ee");
}
