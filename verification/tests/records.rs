//! Texts, integers, lists and records, written and read back.

use std::marker::PhantomData;

use bencode::de;
use bencode::de::{ColonSeparated, Deserialize, Deserializer, Visitor};
use bencode::error::Error;
use bencode::ser;
use bencode::ser::{Serialize, Serializer};

/// The fields of a record as they come off the wire, by name.
fn missing(field: &str) -> Error {
    Error::Message(format!("missing field `{}`", field))
}

fn duplicate(field: &str) -> Error {
    Error::Message(format!("duplicate field `{}`", field))
}

fn unknown(field: &str) -> Error {
    Error::Message(format!("unknown field `{}`", field))
}

#[derive(PartialEq, Debug)]
struct TestStruct {
    a: String,
}

#[derive(PartialEq, Debug)]
struct TestStructInt {
    a: i32,
}

#[derive(PartialEq, Debug)]
struct TestStructVec {
    a: Vec<String>,
}

#[derive(PartialEq, Debug)]
struct TestStructMap {
    a: String,
    b: TestStruct,
}

struct TestStructVisitor;

impl<'de> Visitor<'de, TestStruct> for TestStructVisitor {
    fn visit_i64(self, _v: i64) -> Result<TestStruct, Error> {
        Err(Error::ExpectedMap)
    }

    fn visit_borrowed_str(self, _v: &'de str) -> Result<TestStruct, Error> {
        Err(Error::ExpectedMap)
    }

    fn visit_borrowed_bytes(self, _v: &'de [u8]) -> Result<TestStruct, Error> {
        Err(Error::ExpectedMap)
    }

    fn visit_seq(self, _seq: ColonSeparated<'_, 'de>) -> Result<TestStruct, Error> {
        Err(Error::ExpectedMap)
    }

    fn visit_map(self, mut map: ColonSeparated<'_, 'de>) -> Result<TestStruct, Error> {
        let mut a: Option<String> = None;
        while let Some(key) = map.next_key_seed(PhantomData::<&'de str>)? {
            match key {
                "a" => {
                    if a.is_some() {
                        return Err(duplicate("a"));
                    }
                    a = Some(map.next_value_seed(PhantomData::<String>)?);
                }
                other => return Err(unknown(other)),
            }
        }
        Ok(TestStruct { a: a.ok_or_else(|| missing("a"))? })
    }
}

impl<'de> Deserialize<'de> for TestStruct {
    fn deserialize(deserializer: &mut Deserializer<'de>) -> Result<Self, Error> {
        deserializer.deserialize_struct("TestStruct", &["a"], TestStructVisitor)
    }
}

impl Serialize for TestStruct {
    fn serialize(&self, serializer: &mut Serializer) -> Result<(), Error> {
        serializer.serialize_struct("TestStruct", 1)?;
        serializer.serialize_field("a", &self.a)?;
        serializer.end()
    }
}

struct TestStructIntVisitor;

impl<'de> Visitor<'de, TestStructInt> for TestStructIntVisitor {
    fn visit_i64(self, _v: i64) -> Result<TestStructInt, Error> {
        Err(Error::ExpectedMap)
    }

    fn visit_borrowed_str(self, _v: &'de str) -> Result<TestStructInt, Error> {
        Err(Error::ExpectedMap)
    }

    fn visit_borrowed_bytes(self, _v: &'de [u8]) -> Result<TestStructInt, Error> {
        Err(Error::ExpectedMap)
    }

    fn visit_seq(self, _seq: ColonSeparated<'_, 'de>) -> Result<TestStructInt, Error> {
        Err(Error::ExpectedMap)
    }

    fn visit_map(self, mut map: ColonSeparated<'_, 'de>) -> Result<TestStructInt, Error> {
        let mut a: Option<i32> = None;
        while let Some(key) = map.next_key_seed(PhantomData::<&'de str>)? {
            match key {
                "a" => {
                    if a.is_some() {
                        return Err(duplicate("a"));
                    }
                    a = Some(map.next_value_seed(PhantomData::<i32>)?);
                }
                other => return Err(unknown(other)),
            }
        }
        Ok(TestStructInt { a: a.ok_or_else(|| missing("a"))? })
    }
}

impl<'de> Deserialize<'de> for TestStructInt {
    fn deserialize(deserializer: &mut Deserializer<'de>) -> Result<Self, Error> {
        deserializer.deserialize_struct("TestStructInt", &["a"], TestStructIntVisitor)
    }
}

impl Serialize for TestStructInt {
    fn serialize(&self, serializer: &mut Serializer) -> Result<(), Error> {
        serializer.serialize_struct("TestStructInt", 1)?;
        serializer.serialize_field("a", &self.a)?;
        serializer.end()
    }
}

struct TestStructVecVisitor;

impl<'de> Visitor<'de, TestStructVec> for TestStructVecVisitor {
    fn visit_i64(self, _v: i64) -> Result<TestStructVec, Error> {
        Err(Error::ExpectedMap)
    }

    fn visit_borrowed_str(self, _v: &'de str) -> Result<TestStructVec, Error> {
        Err(Error::ExpectedMap)
    }

    fn visit_borrowed_bytes(self, _v: &'de [u8]) -> Result<TestStructVec, Error> {
        Err(Error::ExpectedMap)
    }

    fn visit_seq(self, _seq: ColonSeparated<'_, 'de>) -> Result<TestStructVec, Error> {
        Err(Error::ExpectedMap)
    }

    fn visit_map(self, mut map: ColonSeparated<'_, 'de>) -> Result<TestStructVec, Error> {
        let mut a: Option<Vec<String>> = None;
        while let Some(key) = map.next_key_seed(PhantomData::<&'de str>)? {
            match key {
                "a" => {
                    if a.is_some() {
                        return Err(duplicate("a"));
                    }
                    a = Some(map.next_value_seed(PhantomData::<Vec<String>>)?);
                }
                other => return Err(unknown(other)),
            }
        }
        Ok(TestStructVec { a: a.ok_or_else(|| missing("a"))? })
    }
}

impl<'de> Deserialize<'de> for TestStructVec {
    fn deserialize(deserializer: &mut Deserializer<'de>) -> Result<Self, Error> {
        deserializer.deserialize_struct("TestStructVec", &["a"], TestStructVecVisitor)
    }
}

impl Serialize for TestStructVec {
    fn serialize(&self, serializer: &mut Serializer) -> Result<(), Error> {
        serializer.serialize_struct("TestStructVec", 1)?;
        serializer.serialize_field("a", &self.a)?;
        serializer.end()
    }
}

struct TestStructMapVisitor;

impl<'de> Visitor<'de, TestStructMap> for TestStructMapVisitor {
    fn visit_i64(self, _v: i64) -> Result<TestStructMap, Error> {
        Err(Error::ExpectedMap)
    }

    fn visit_borrowed_str(self, _v: &'de str) -> Result<TestStructMap, Error> {
        Err(Error::ExpectedMap)
    }

    fn visit_borrowed_bytes(self, _v: &'de [u8]) -> Result<TestStructMap, Error> {
        Err(Error::ExpectedMap)
    }

    fn visit_seq(self, _seq: ColonSeparated<'_, 'de>) -> Result<TestStructMap, Error> {
        Err(Error::ExpectedMap)
    }

    fn visit_map(self, mut map: ColonSeparated<'_, 'de>) -> Result<TestStructMap, Error> {
        let mut a: Option<String> = None;
        let mut b: Option<TestStruct> = None;
        while let Some(key) = map.next_key_seed(PhantomData::<&'de str>)? {
            match key {
                "a" => {
                    if a.is_some() {
                        return Err(duplicate("a"));
                    }
                    a = Some(map.next_value_seed(PhantomData::<String>)?);
                }
                "b" => {
                    if b.is_some() {
                        return Err(duplicate("b"));
                    }
                    b = Some(map.next_value_seed(PhantomData::<TestStruct>)?);
                }
                other => return Err(unknown(other)),
            }
        }
        Ok(TestStructMap { a: a.ok_or_else(|| missing("a"))?, b: b.ok_or_else(|| missing("b"))? })
    }
}

impl<'de> Deserialize<'de> for TestStructMap {
    fn deserialize(deserializer: &mut Deserializer<'de>) -> Result<Self, Error> {
        deserializer.deserialize_struct("TestStructMap", &["a", "b"], TestStructMapVisitor)
    }
}

impl Serialize for TestStructMap {
    fn serialize(&self, serializer: &mut Serializer) -> Result<(), Error> {
        serializer.serialize_struct("TestStructMap", 2)?;
        serializer.serialize_field("a", &self.a)?;
        serializer.serialize_field("b", &self.b)?;
        serializer.end()
    }
}

#[test]
fn ser_str() {
    let example: String = "a".to_string();
    let example_ser: String = ser::to_str(&example).unwrap();
    println!("Serialized String: {}", example_ser);
    assert!(example_ser == "1:a")
}

#[test]
fn ser_int() {
    let example: i32 = 10;
    let example_ser: String = ser::to_str(&example).unwrap();
    println!("Serialized Integer: {}", example_ser);
    assert!(example_ser == "i10e")
}

#[test]
fn ser_vec() {
    let example: Vec<String> = vec!["a".to_string(), "b".to_string(), "c".to_string()];
    let example_ser: String = ser::to_str(&example).unwrap();
    println!("Serialized Vector: {}", example_ser);
    assert!(example_ser == "l1:a1:b1:ce")
}

#[test]
fn ser_map() {
    let example: TestStruct = TestStruct { a: "hello".to_string() };
    let example_ser: String = ser::to_str(&example).unwrap();
    println!("Serialized Str Map: {}", example_ser);
    assert!(example_ser == "d1:a5:helloe")
}

#[test]
fn ser_map_int() {
    let example: TestStructInt = TestStructInt { a: 10 };
    let example_ser: String = ser::to_str(&example).unwrap();
    println!("Serialized Int Map: {}", example_ser);
    assert!(example_ser == "d1:ai10ee")
}

#[test]
fn ser_map_vec() {
    let example: TestStructVec =
        TestStructVec { a: vec!["a".to_string(), "b".to_string(), "c".to_string()] };
    let example_ser: String = ser::to_str(&example).unwrap();
    println!("Serialized Vec Map: {}", example_ser);
    assert!(example_ser == "d1:al1:a1:b1:cee")
}

#[test]
fn ser_map_map() {
    let example: TestStructMap =
        TestStructMap { a: "hello".to_string(), b: TestStruct { a: "world".to_string() } };
    let example_ser: String = ser::to_str(&example).unwrap();
    println!("Serialized Map Map: {}", example_ser);
    assert!(example_ser == "d1:a5:hello1:bd1:a5:worldee")
}

#[test]
fn de_str() {
    let example: String = "1:a".to_string();
    let example_de: String = de::from_str(&example).unwrap();
    println!("Deserialized String: {}", example_de);
    assert!(example_de == "a")
}

#[test]
fn de_int() {
    let example: String = "i10e".to_string();
    let example_de: i32 = de::from_str(&example).unwrap();
    println!("Deserialized Integer: {}", example_de);
    assert!(example_de == 10)
}

#[test]
fn de_vec() {
    let example: String = "l1:a1:b1:ce".to_string();
    let example_de: Vec<String> = de::from_str(&example).unwrap();
    for (i, de_val) in example_de.iter().enumerate() {
        println!("Deserialized Vec<String>[{}]: {}", i, de_val);
    }
    assert!(example_de == vec!["a", "b", "c"])
}

#[test]
fn de_map() {
    let example: String = "d1:a5:helloe".to_string();
    let example_de: TestStruct = de::from_str(&example).unwrap();
    assert!(example_de.a == "hello");
}

#[test]
fn de_map_int() {
    let example: String = "d1:ai10ee".to_string();
    let example_de: TestStructInt = de::from_str(&example).unwrap();
    assert!(example_de.a == 10)
}

#[test]
fn de_map_vec() {
    let example: String = "d1:al1:a1:b1:cee".to_string();
    let example_de: TestStructVec = de::from_str(&example).unwrap();
    assert!(example_de.a == vec!["a", "b", "c"])
}

#[test]
fn de_map_map() {
    let example: String = "d1:a5:hello1:bd1:a5:worldee".to_string();
    let example_de: TestStructMap = de::from_str(&example).unwrap();
    assert!(example_de.a == "hello");
    assert!(example_de.b.a == "world");
}

#[test]
fn record_is_read_and_written_back_alike() {
    let text = "d1:a5:helloe";
    let record: TestStruct = de::from_str(text).unwrap();
    assert_eq!(record, TestStruct { a: "hello".to_string() });
    assert_eq!(ser::to_str(&record).unwrap(), text);
}

#[test]
fn list_is_read_and_written_back_alike() {
    let text = "l1:a1:b1:ce";
    let list: Vec<String> = de::from_str(text).unwrap();
    assert_eq!(list, vec!["a", "b", "c"]);
    assert_eq!(ser::to_str(&list).unwrap(), text);
}

#[test]
fn nested_record_is_read_and_written_back_alike() {
    let text = "d1:a5:hello1:bd1:a5:worldee";
    let record: TestStructMap = de::from_str(text).unwrap();
    assert_eq!(
        record,
        TestStructMap { a: "hello".to_string(), b: TestStruct { a: "world".to_string() } }
    );
    assert_eq!(ser::to_str(&record).unwrap(), text);
    assert_eq!(ser::to_bytes(&record).unwrap(), text.as_bytes());
}

#[test]
fn record_fields_are_written_in_their_order() {
    let record = TestStructMap { a: "z".to_string(), b: TestStruct { a: "a".to_string() } };
    assert_eq!(ser::to_str(&record).unwrap(), "d1:a1:z1:bd1:a1:aee");
}

#[test]
fn record_fields_are_read_in_any_order() {
    let record: TestStructMap = de::from_str("d1:bd1:a5:worlde1:a5:helloe").unwrap();
    assert_eq!(record.a, "hello");
    assert_eq!(record.b.a, "world");
}

#[test]
fn record_with_a_dangling_key() {
    assert_eq!(de::from_str::<TestStruct>("d1:ae"), Err(Error::ExpectedColon));
    assert_eq!(de::from_str::<TestStructInt>("d1:ae"), Err(Error::ExpectedI));
    assert_eq!(de::from_str::<TestStructVec>("d1:ae"), Err(Error::ExpectedList));
    assert_eq!(de::from_str::<TestStructMap>("d1:a5:hello1:be"), Err(Error::ExpectedMap));
}

#[test]
fn record_with_trailing_bytes() {
    assert_eq!(de::from_str::<TestStruct>("d1:a5:helloee"), Err(Error::TrailingCharacters));
    assert_eq!(de::from_str::<TestStruct>("d1:a5:helloei1e"), Err(Error::TrailingCharacters));
}

#[test]
fn record_that_is_no_dictionary() {
    assert_eq!(de::from_str::<TestStruct>("l1:ae"), Err(Error::ExpectedMap));
    assert_eq!(de::from_str::<TestStruct>("5:hello"), Err(Error::ExpectedMap));
    assert_eq!(de::from_str::<TestStruct>(""), Err(Error::Eof));
    assert_eq!(de::from_str::<TestStruct>("d1:a5:hello"), Err(Error::Eof));
}

#[test]
fn record_fails_in_its_own_words() {
    assert_eq!(de::from_str::<TestStruct>("de"), Err(missing("a")));
    assert_eq!(de::from_str::<TestStruct>("d1:b1:xe"), Err(unknown("b")));
    assert_eq!(de::from_str::<TestStruct>("d1:a1:x1:a1:ye"), Err(duplicate("a")));
    assert_eq!(missing("a").description(), "missing field `a`");
}

#[test]
fn record_of_a_narrow_integer() {
    assert_eq!(de::from_str::<TestStructInt>("d1:ai-7ee"), Ok(TestStructInt { a: -7 }));
    assert_eq!(de::from_str::<TestStructInt>("d1:ai2147483648ee"), Err(Error::ExpectedInteger));
}
