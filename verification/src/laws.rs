//! What holds of writing and reading together.

use vstd::prelude::*;
use vstd::string::StringSliceAdditionalSpecFns;
use crate::de;
use crate::de::Deserialize;
use crate::error::Error;
use crate::impls;
use crate::impls::{Bytes, Dict};
use crate::ser;
use crate::ser::Serialize;
use crate::wire;
use crate::wire::WireValue;

verus! {

/// Whether the bytes `written` stand in `bytes` at `pos`.
pub open spec fn stands_at(bytes: Seq<u8>, pos: int, written: Seq<u8>) -> bool {
    &&& 0 <= pos
    &&& pos + written.len() <= bytes.len()
    &&& bytes.subrange(pos, pos + written.len()) == written
}

/// A shape whose values can all be written, and are read back as they were
/// written.
pub trait RoundTrip<'de>: Serialize + Deserialize<'de> + DeepView {
    /// Every value of the shape can be written.
    proof fn lemma_writable(&self)
        ensures
            self.encoding() is Ok,
    ;

    /// Where the bytes of a value stand in an input, whatever stands around
    /// them, decoding there gives the value and ends just behind them. Its
    /// bytes are one at least, and the first of them does not close a list.
    proof fn lemma_round_trip(&self, bytes: Seq<u8>, pos: int)
        requires
            stands_at(bytes, pos, self.encoding()->Ok_0),
        ensures
            Self::decoding(bytes, pos) == Ok::<(WireValue, int), Error>(
                (self.model(), pos + self.encoding()->Ok_0.len()),
            ),
            self.encoding()->Ok_0.len() > 0,
            self.encoding()->Ok_0[0] != wire::CLOSE,
    ;

    /// What is written of a value is what the grammar gives for the wire
    /// value that it stands for.
    proof fn lemma_written_by_grammar(&self)
        ensures
            self.encoding() == Ok::<Seq<u8>, Error>(wire::encode(self.model())),
    ;

    /// What decoding the shape finds in an input is what the grammar finds
    /// there.
    proof fn lemma_read_by_grammar(bytes: Seq<u8>, pos: int)
        requires
            0 <= pos,
            Self::decoding(bytes, pos) is Ok,
        ensures
            wire::parse(bytes, pos) == Some(Self::decoding(bytes, pos)->Ok_0),
    ;

    /// Two values that stand for one wire value hold the same.
    proof fn lemma_same_model(&self, other: &Self)
        requires
            self.model() == other.model(),
        ensures
            self.deep_view() == other.deep_view(),
    ;
}

/// Round trip: `to_bytes` gives bytes for every value of a shape that reads
/// back, and `from_bytes` reads them back as that value.
pub proof fn lemma_read_back<'de, T: RoundTrip<'de>>(value: &T, written: Result<Vec<u8>, Error>, read: Result<T, Error>)
    requires
        ser::bytes_written(value, written),
        de::decoded(written->Ok_0@, read),
    ensures
        written is Ok,
        read is Ok,
        read->Ok_0.deep_view() == value.deep_view(),
{
    value.lemma_writable();
    let bytes = written->Ok_0@;
    assert(bytes.subrange(0, bytes.len() as int) =~= bytes);
    value.lemma_round_trip(bytes, 0);
    read->Ok_0.lemma_same_model(value);
}

/// Round trip through a text: for every value of a shape that reads back
/// and whose bytes are a text, `to_str` gives that text, and `from_str` reads
/// it back as that value.
pub proof fn lemma_read_back_text<'de, T: RoundTrip<'de>>(
    value: &T,
    written: Result<String, Error>,
    read: Result<T, Error>,
)
    requires
        vstd::utf8::valid_utf8(value.encoding()->Ok_0),
        ser::text_written(value, written),
        de::decoded(vstd::utf8::encode_utf8(written->Ok_0@), read),
    ensures
        written is Ok,
        read is Ok,
        read->Ok_0.deep_view() == value.deep_view(),
{
    value.lemma_writable();
    let bytes = vstd::utf8::encode_utf8(written->Ok_0@);
    assert(bytes.subrange(0, bytes.len() as int) =~= bytes);
    value.lemma_round_trip(bytes, 0);
    read->Ok_0.lemma_same_model(value);
}

/// Writing is repeatable: two results of `to_bytes` for one value agree, in
/// the bytes where it can be written and in the reason where it cannot.
pub proof fn lemma_written_once<T: Serialize + ?Sized>(
    value: &T,
    first: Result<Vec<u8>, Error>,
    second: Result<Vec<u8>, Error>,
)
    requires
        ser::bytes_written(value, first),
        ser::bytes_written(value, second),
    ensures
        first is Ok <==> second is Ok,
        first is Ok ==> first->Ok_0@ == second->Ok_0@,
        first is Err ==> first->Err_0 == second->Err_0,
{
}

/// Writing is repeatable: two results of `to_str` for one value agree, in
/// the text where it has one and in the reason where it has none.
pub proof fn lemma_written_once_text<T: Serialize + ?Sized>(
    value: &T,
    first: Result<String, Error>,
    second: Result<String, Error>,
)
    requires
        ser::text_written(value, first),
        ser::text_written(value, second),
    ensures
        first is Ok <==> second is Ok,
        first is Ok ==> first->Ok_0@ == second->Ok_0@,
        first is Err ==> first->Err_0 == second->Err_0,
{
    if first is Ok {
        vstd::utf8::encode_utf8_decode_utf8(first->Ok_0@);
        vstd::utf8::encode_utf8_decode_utf8(second->Ok_0@);
    }
}

impl<'de> RoundTrip<'de> for i64 {
    proof fn lemma_writable(&self) {
    }

    proof fn lemma_round_trip(&self, bytes: Seq<u8>, pos: int) {
        wire::lemma_integer_round_trip(bytes, pos, *self as int);
    }

    proof fn lemma_written_by_grammar(&self) {
    }

    proof fn lemma_read_by_grammar(bytes: Seq<u8>, pos: int) {
    }

    proof fn lemma_same_model(&self, other: &Self) {
    }
}

impl<'de> RoundTrip<'de> for i32 {
    proof fn lemma_writable(&self) {
    }

    proof fn lemma_round_trip(&self, bytes: Seq<u8>, pos: int) {
        wire::lemma_integer_round_trip(bytes, pos, *self as int);
    }

    proof fn lemma_written_by_grammar(&self) {
    }

    proof fn lemma_read_by_grammar(bytes: Seq<u8>, pos: int) {
    }

    proof fn lemma_same_model(&self, other: &Self) {
    }
}

impl<'de> RoundTrip<'de> for i16 {
    proof fn lemma_writable(&self) {
    }

    proof fn lemma_round_trip(&self, bytes: Seq<u8>, pos: int) {
        wire::lemma_integer_round_trip(bytes, pos, *self as int);
    }

    proof fn lemma_written_by_grammar(&self) {
    }

    proof fn lemma_read_by_grammar(bytes: Seq<u8>, pos: int) {
    }

    proof fn lemma_same_model(&self, other: &Self) {
    }
}

impl<'de> RoundTrip<'de> for i8 {
    proof fn lemma_writable(&self) {
    }

    proof fn lemma_round_trip(&self, bytes: Seq<u8>, pos: int) {
        wire::lemma_integer_round_trip(bytes, pos, *self as int);
    }

    proof fn lemma_written_by_grammar(&self) {
    }

    proof fn lemma_read_by_grammar(bytes: Seq<u8>, pos: int) {
    }

    proof fn lemma_same_model(&self, other: &Self) {
    }
}

impl<'de> RoundTrip<'de> for String {
    proof fn lemma_writable(&self) {
    }

    proof fn lemma_round_trip(&self, bytes: Seq<u8>, pos: int) {
        let content = vstd::utf8::encode_utf8(self@);
        vstd::utf8::encode_utf8_valid_utf8(self@);
        wire::lemma_byte_string_round_trip(bytes, pos, content);
        wire::lemma_decimal_digits(content.len());
    }

    proof fn lemma_written_by_grammar(&self) {
    }

    proof fn lemma_read_by_grammar(bytes: Seq<u8>, pos: int) {
    }

    proof fn lemma_same_model(&self, other: &Self) {
        vstd::utf8::encode_utf8_decode_utf8(self@);
        vstd::utf8::encode_utf8_decode_utf8(other@);
    }
}

impl<'de> RoundTrip<'de> for &'de str {
    proof fn lemma_writable(&self) {
    }

    proof fn lemma_round_trip(&self, bytes: Seq<u8>, pos: int) {
        let content = self.spec_bytes();
        vstd::utf8::encode_utf8_valid_utf8(self@);
        wire::lemma_byte_string_round_trip(bytes, pos, content);
        wire::lemma_decimal_digits(content.len());
    }

    proof fn lemma_written_by_grammar(&self) {
    }

    proof fn lemma_read_by_grammar(bytes: Seq<u8>, pos: int) {
    }

    proof fn lemma_same_model(&self, other: &Self) {
        vstd::utf8::encode_utf8_decode_utf8(self@);
        vstd::utf8::encode_utf8_decode_utf8(other@);
    }
}

impl<'de> RoundTrip<'de> for Bytes<'de> {
    proof fn lemma_writable(&self) {
    }

    proof fn lemma_round_trip(&self, bytes: Seq<u8>, pos: int) {
        wire::lemma_byte_string_round_trip(bytes, pos, self.0@);
        wire::lemma_decimal_digits(self.0@.len());
    }

    proof fn lemma_written_by_grammar(&self) {
    }

    proof fn lemma_read_by_grammar(bytes: Seq<u8>, pos: int) {
    }

    proof fn lemma_same_model(&self, other: &Self) {
    }
}

/// A piece of what stands in an input stands there too, at its own place.
pub proof fn lemma_piece_stands(bytes: Seq<u8>, pos: int, whole: Seq<u8>, offset: int, piece: Seq<u8>)
    requires
        stands_at(bytes, pos, whole),
        0 <= offset,
        offset + piece.len() <= whole.len(),
        whole.subrange(offset, offset + piece.len()) == piece,
    ensures
        stands_at(bytes, pos + offset, piece),
{
    let part = bytes.subrange(pos, pos + whole.len());
    assert forall|i: int| 0 <= i < piece.len() implies bytes.subrange(pos + offset, pos + offset + piece.len())[i]
        == piece[i] by {
        assert(part[offset + i] == bytes[pos + offset + i]);
        assert(whole.subrange(offset, offset + piece.len())[i] == whole[offset + i]);
    }
    assert(bytes.subrange(pos + offset, pos + offset + piece.len()) =~= piece);
}

/// The bytes of `items` up to the item at `k`.
pub open spec fn items_before<T: Serialize>(items: Seq<T>, k: int) -> Seq<u8> {
    impls::encodings(items.take(k))->Ok_0
}

/// Items of a shape that reads back can be written, however many, and one
/// item more appends the bytes of that item.
pub proof fn lemma_items_writable<'de, T: RoundTrip<'de>>(items: Seq<T>, k: int)
    requires
        0 <= k <= items.len(),
    ensures
        impls::encodings(items.take(k)) is Ok,
        k < items.len() ==> items_before(items, k + 1) == items_before(items, k) + items[k].encoding()->Ok_0,
        k == items.len() ==> impls::encodings(items) == Ok::<Seq<u8>, Error>(items_before(items, k)),
    decreases k,
{
    if k > 0 {
        lemma_items_writable(items, k - 1);
        assert(items.take(k).drop_last() =~= items.take(k - 1));
        items[k - 1].lemma_writable();
    }
    if k < items.len() {
        assert(items.take(k + 1).drop_last() =~= items.take(k));
        items[k].lemma_writable();
    } else {
        assert(items.take(k) =~= items);
    }
}

/// The bytes of the item at `k` stand in the bytes of all the items, behind
/// those of the items before it.
pub proof fn lemma_item_within<'de, T: RoundTrip<'de>>(items: Seq<T>, k: int)
    requires
        0 <= k < items.len(),
    ensures
        ({
            let all = items_before(items, items.len() as int);
            let front = items_before(items, k).len() as int;
            let written = items[k].encoding()->Ok_0;
            &&& front + written.len() <= all.len()
            &&& all.subrange(front, front + written.len()) == written
        }),
{
    let all = items_before(items, items.len() as int);
    let front = items_before(items, k).len() as int;
    let written = items[k].encoding()->Ok_0;
    let more = items_before(items, k + 1);
    lemma_items_writable(items, k);
    lemma_items_writable(items, k + 1);
    assert(more.len() == front + written.len());
    if more.len() > 0 {
        lemma_prefix_kept(items, k + 1, more.len() - 1);
    }
    assert forall|i: int| 0 <= i < written.len() implies all.subrange(front, front + written.len())[i]
        == written[i] by {
        lemma_prefix_kept(items, k + 1, front + i);
    }
    assert(all.subrange(front, front + written.len()) =~= written);
}

/// The bytes of the items before the item at `k` open the bytes of all the
/// items.
pub proof fn lemma_prefix_kept<'de, T: RoundTrip<'de>>(items: Seq<T>, k: int, i: int)
    requires
        0 <= k <= items.len(),
        0 <= i < items_before(items, k).len(),
    ensures
        i < items_before(items, items.len() as int).len(),
        items_before(items, items.len() as int)[i] == items_before(items, k)[i],
    decreases items.len() - k,
{
    if k < items.len() {
        lemma_items_writable(items, k);
        lemma_prefix_kept(items, k + 1, i);
    }
}

/// Where the bytes of items that read back stand in an input in a row, with
/// `e` behind them, reading elements from the start of the item at `k` on
/// gives the items from there on and stops at that `e`.
pub proof fn lemma_elements_round_trip<'de, T: RoundTrip<'de>>(items: Seq<T>, bytes: Seq<u8>, start: int, k: int)
    requires
        0 <= k <= items.len(),
        stands_at(bytes, start, items_before(items, items.len() as int).push(wire::CLOSE)),
    ensures
        impls::elements::<T>(bytes, start + items_before(items, k).len()) == Ok::<(Seq<WireValue>, int), Error>(
            (impls::models(items.skip(k)), start + items_before(items, items.len() as int).len()),
        ),
    decreases items.len() - k,
{
    let all = items_before(items, items.len() as int);
    let whole = all.push(wire::CLOSE);
    let here = start + items_before(items, k).len();
    if k == items.len() {
        assert(whole.subrange(all.len() as int, all.len() as int + 1) =~= seq![wire::CLOSE]);
        lemma_piece_stands(bytes, start, whole, all.len() as int, seq![wire::CLOSE]);
        assert(bytes[here] == bytes.subrange(here, here + 1)[0]);
        assert(impls::models(items.skip(k)) =~= Seq::<WireValue>::empty());
    } else {
        let item = items[k];
        let written = item.encoding()->Ok_0;
        lemma_item_within(items, k);
        lemma_items_writable(items, k);
        assert(whole.subrange(here - start, here - start + written.len()) =~= all.subrange(
            here - start,
            here - start + written.len(),
        ));
        lemma_piece_stands(bytes, start, whole, here - start, written);
        item.lemma_round_trip(bytes, here);
        assert(bytes[here] == bytes.subrange(here, here + written.len())[0]);
        lemma_elements_round_trip(items, bytes, start, k + 1);
        assert(seq![item.model()] + impls::models(items.skip(k + 1)) =~= impls::models(items.skip(k)));
    }
}

/// What is written of the first `k` items is what the grammar gives for the
/// wire values that they stand for.
pub proof fn lemma_items_by_grammar<'de, T: RoundTrip<'de>>(items: Seq<T>, k: int)
    requires
        0 <= k <= items.len(),
    ensures
        impls::encodings(items.take(k)) == Ok::<Seq<u8>, Error>(
            wire::encode_items(impls::models(items), k as nat),
        ),
    decreases k,
{
    lemma_items_writable(items, k);
    if k == 0 {
        assert(items.take(0) =~= Seq::<T>::empty());
    } else {
        lemma_items_by_grammar(items, k - 1);
        lemma_items_writable(items, k - 1);
        items[k - 1].lemma_written_by_grammar();
    }
}

/// The elements that a list decoder finds in an input are the values that
/// the grammar finds there.
pub proof fn lemma_elements_by_grammar<'de, T: RoundTrip<'de>>(bytes: Seq<u8>, pos: int)
    requires
        0 <= pos,
    ensures
        impls::elements::<T>(bytes, pos) is Ok ==> wire::parse_items(bytes, pos) == Some(
            impls::elements::<T>(bytes, pos)->Ok_0,
        ),
    decreases bytes.len() - pos,
{
    if impls::elements::<T>(bytes, pos) is Ok && de::at_close(bytes, pos) == Ok::<bool, Error>(false) {
        let (first, next) = T::decoding(bytes, pos)->Ok_0;
        T::lemma_read_by_grammar(bytes, pos);
        lemma_elements_by_grammar::<T>(bytes, next);
    }
}

impl<'de, T: RoundTrip<'de>> RoundTrip<'de> for Vec<T> {
    proof fn lemma_writable(&self) {
        lemma_items_writable(self@, self@.len() as int);
    }

    proof fn lemma_round_trip(&self, bytes: Seq<u8>, pos: int) {
        lemma_items_writable(self@, self@.len() as int);
        lemma_items_writable(self@, 0);
        let all = items_before(self@, self@.len() as int);
        let written = self.encoding()->Ok_0;
        assert(written.subrange(0, 1) =~= seq![wire::OPEN_LIST]);
        lemma_piece_stands(bytes, pos, written, 0, seq![wire::OPEN_LIST]);
        assert(bytes[pos] == bytes.subrange(pos, pos + 1)[0]);
        assert(written.subrange(1, all.len() as int + 2) =~= all.push(wire::CLOSE));
        lemma_piece_stands(bytes, pos, written, 1, all.push(wire::CLOSE));
        lemma_elements_round_trip(self@, bytes, pos + 1, 0);
        assert(self@.take(0) =~= Seq::<T>::empty());
        assert(self@.skip(0) =~= self@);
        assert(all.push(wire::CLOSE).subrange(all.len() as int, all.len() as int + 1) =~= seq![wire::CLOSE]);
        lemma_piece_stands(bytes, pos + 1, all.push(wire::CLOSE), all.len() as int, seq![wire::CLOSE]);
        assert(bytes[pos + 1 + all.len()] == bytes.subrange(pos + 1 + all.len(), pos + 1 + all.len() + 1)[0]);
    }

    proof fn lemma_written_by_grammar(&self) {
        lemma_items_writable(self@, self@.len() as int);
        lemma_items_by_grammar(self@, self@.len() as int);
    }

    proof fn lemma_read_by_grammar(bytes: Seq<u8>, pos: int) {
        lemma_elements_by_grammar::<T>(bytes, pos + 1);
    }

    proof fn lemma_same_model(&self, other: &Self) {
        let mine = impls::models(self@);
        let theirs = impls::models(other@);
        assert(mine.len() == theirs.len());
        assert forall|i: int| 0 <= i < self@.len() implies self@[i].deep_view() == other@[i].deep_view() by {
            assert(mine[i] == theirs[i]);
            self@[i].lemma_same_model(&other@[i]);
        }
        assert(self.deep_view() =~= other.deep_view());
    }
}

/// The bytes of the key of an entry, as they are written.
pub open spec fn key_encoding<V>(entry: (String, V)) -> Seq<u8> {
    wire::encode_byte_string(vstd::utf8::encode_utf8(entry.0@))
}

/// The bytes of `entries` up to the entry at `k`.
pub open spec fn entries_before<V: Serialize>(entries: Seq<(String, V)>, k: int) -> Seq<u8> {
    impls::entry_encodings(entries.take(k))->Ok_0
}

/// Entries with values of a shape that reads back can be written, however
/// many, and one entry more appends its key and its value.
pub proof fn lemma_entries_writable<'de, V: RoundTrip<'de>>(entries: Seq<(String, V)>, k: int)
    requires
        0 <= k <= entries.len(),
    ensures
        impls::entry_encodings(entries.take(k)) is Ok,
        k < entries.len() ==> entries_before(entries, k + 1) == entries_before(entries, k) + key_encoding(
            entries[k],
        ) + entries[k].1.encoding()->Ok_0,
        k == entries.len() ==> impls::entry_encodings(entries) == Ok::<Seq<u8>, Error>(
            entries_before(entries, k),
        ),
    decreases k,
{
    if k > 0 {
        lemma_entries_writable(entries, k - 1);
        assert(entries.take(k).drop_last() =~= entries.take(k - 1));
        entries[k - 1].1.lemma_writable();
    }
    if k < entries.len() {
        assert(entries.take(k + 1).drop_last() =~= entries.take(k));
        entries[k].1.lemma_writable();
    } else {
        assert(entries.take(k) =~= entries);
    }
}

/// The bytes of the entries before the entry at `k` open the bytes of all
/// the entries.
pub proof fn lemma_entries_prefix_kept<'de, V: RoundTrip<'de>>(entries: Seq<(String, V)>, k: int, i: int)
    requires
        0 <= k <= entries.len(),
        0 <= i < entries_before(entries, k).len(),
    ensures
        i < entries_before(entries, entries.len() as int).len(),
        entries_before(entries, entries.len() as int)[i] == entries_before(entries, k)[i],
    decreases entries.len() - k,
{
    if k < entries.len() {
        lemma_entries_writable(entries, k);
        lemma_entries_prefix_kept(entries, k + 1, i);
    }
}

/// The bytes of the entry at `k`, its key and then its value, stand in the
/// bytes of all the entries, behind those of the entries before it.
pub proof fn lemma_entry_within<'de, V: RoundTrip<'de>>(entries: Seq<(String, V)>, k: int)
    requires
        0 <= k < entries.len(),
    ensures
        ({
            let all = entries_before(entries, entries.len() as int);
            let front = entries_before(entries, k).len() as int;
            let key = key_encoding(entries[k]);
            let value = entries[k].1.encoding()->Ok_0;
            &&& front + key.len() + value.len() <= all.len()
            &&& all.subrange(front, front + key.len()) == key
            &&& all.subrange(front + key.len(), front + key.len() + value.len()) == value
        }),
{
    let all = entries_before(entries, entries.len() as int);
    let front = entries_before(entries, k).len() as int;
    let key = key_encoding(entries[k]);
    let value = entries[k].1.encoding()->Ok_0;
    let more = entries_before(entries, k + 1);
    lemma_entries_writable(entries, k);
    lemma_entries_writable(entries, k + 1);
    assert(more.len() == front + key.len() + value.len());
    if more.len() > 0 {
        lemma_entries_prefix_kept(entries, k + 1, more.len() - 1);
    }
    assert forall|i: int| 0 <= i < key.len() implies all.subrange(front, front + key.len())[i] == key[i] by {
        lemma_entries_prefix_kept(entries, k + 1, front + i);
    }
    assert(all.subrange(front, front + key.len()) =~= key);
    assert forall|i: int| 0 <= i < value.len() implies all.subrange(
        front + key.len(),
        front + key.len() + value.len(),
    )[i] == value[i] by {
        lemma_entries_prefix_kept(entries, k + 1, front + key.len() + i);
    }
    assert(all.subrange(front + key.len(), front + key.len() + value.len()) =~= value);
}

/// Where the bytes of entries whose values read back stand in an input in a
/// row, with `e` behind them, reading entries from the start of the entry at
/// `k` on gives the entries from there on and stops at that `e`.
pub proof fn lemma_entries_round_trip<'de, V: RoundTrip<'de>>(
    entries: Seq<(String, V)>,
    bytes: Seq<u8>,
    start: int,
    k: int,
)
    requires
        0 <= k <= entries.len(),
        stands_at(bytes, start, entries_before(entries, entries.len() as int).push(wire::CLOSE)),
    ensures
        impls::entries::<V>(bytes, start + entries_before(entries, k).len()) == Ok::<
            (Seq<(Seq<u8>, WireValue)>, int),
            Error,
        >((impls::entry_models(entries.skip(k)), start + entries_before(entries, entries.len() as int).len())),
    decreases entries.len() - k,
{
    let all = entries_before(entries, entries.len() as int);
    let whole = all.push(wire::CLOSE);
    let here = start + entries_before(entries, k).len();
    if k == entries.len() {
        assert(whole.subrange(all.len() as int, all.len() as int + 1) =~= seq![wire::CLOSE]);
        lemma_piece_stands(bytes, start, whole, all.len() as int, seq![wire::CLOSE]);
        assert(bytes[here] == bytes.subrange(here, here + 1)[0]);
        assert(impls::entry_models(entries.skip(k)) =~= Seq::<(Seq<u8>, WireValue)>::empty());
    } else {
        let entry = entries[k];
        let key = vstd::utf8::encode_utf8(entry.0@);
        let key_written = key_encoding(entry);
        let value_written = entry.1.encoding()->Ok_0;
        let middle = here + key_written.len();
        lemma_entry_within(entries, k);
        assert(whole.subrange(here - start, here - start + key_written.len()) =~= all.subrange(
            here - start,
            here - start + key_written.len(),
        ));
        lemma_piece_stands(bytes, start, whole, here - start, key_written);
        assert(whole.subrange(middle - start, middle - start + value_written.len()) =~= all.subrange(
            middle - start,
            middle - start + value_written.len(),
        ));
        lemma_piece_stands(bytes, start, whole, middle - start, value_written);
        lemma_key_round_trip(bytes, here, entry.0@);
        entry.1.lemma_round_trip(bytes, middle);
        lemma_entries_round_trip(entries, bytes, start, k + 1);
        lemma_entries_writable(entries, k);
        assert(seq![(key, entry.1.model())] + impls::entry_models(entries.skip(k + 1)) =~= impls::entry_models(
            entries.skip(k),
        ));
    }
}

/// Where the bytes of a key stand in an input, a parse of a text there gives
/// the key and ends just behind them, and the first of them does not close a
/// dictionary.
pub proof fn lemma_key_round_trip(bytes: Seq<u8>, pos: int, key: Seq<char>)
    requires
        stands_at(bytes, pos, wire::encode_byte_string(vstd::utf8::encode_utf8(key))),
    ensures
        wire::text(bytes, pos) == Ok::<(Seq<u8>, int), Error>(
            (
                vstd::utf8::encode_utf8(key),
                pos + wire::encode_byte_string(vstd::utf8::encode_utf8(key)).len(),
            ),
        ),
        0 <= pos < bytes.len(),
        bytes[pos] != wire::CLOSE,
{
    let content = vstd::utf8::encode_utf8(key);
    let written = wire::encode_byte_string(content);
    vstd::utf8::encode_utf8_valid_utf8(key);
    wire::lemma_byte_string_round_trip(bytes, pos, content);
    wire::lemma_decimal_digits(content.len());
    assert(bytes[pos] == bytes.subrange(pos, pos + written.len())[0]);
}

/// What is written of the first `k` entries is what the grammar gives for
/// the wire entries that they stand for.
pub proof fn lemma_entries_by_grammar<'de, V: RoundTrip<'de>>(entries: Seq<(String, V)>, k: int)
    requires
        0 <= k <= entries.len(),
    ensures
        impls::entry_encodings(entries.take(k)) == Ok::<Seq<u8>, Error>(
            wire::encode_entries(impls::entry_models(entries), k as nat),
        ),
    decreases k,
{
    lemma_entries_writable(entries, k);
    if k == 0 {
        assert(entries.take(0) =~= Seq::<(String, V)>::empty());
    } else {
        lemma_entries_by_grammar(entries, k - 1);
        lemma_entries_writable(entries, k - 1);
        entries[k - 1].1.lemma_written_by_grammar();
    }
}

/// The entries that a dictionary decoder finds in an input are the entries
/// that the grammar finds there.
pub proof fn lemma_entries_read_by_grammar<'de, V: RoundTrip<'de>>(bytes: Seq<u8>, pos: int)
    requires
        0 <= pos,
    ensures
        impls::entries::<V>(bytes, pos) is Ok ==> wire::parse_entries(bytes, pos) == Some(
            impls::entries::<V>(bytes, pos)->Ok_0,
        ),
    decreases bytes.len() - pos,
{
    if impls::entries::<V>(bytes, pos) is Ok && de::at_close(bytes, pos) == Ok::<bool, Error>(false) {
        let (key, middle) = wire::text(bytes, pos)->Ok_0;
        let (value, next) = V::decoding(bytes, middle)->Ok_0;
        V::lemma_read_by_grammar(bytes, middle);
        lemma_entries_read_by_grammar::<V>(bytes, next);
    }
}

impl<'de, V: RoundTrip<'de>> RoundTrip<'de> for Dict<V> {
    proof fn lemma_writable(&self) {
        lemma_entries_writable(self.0@, self.0@.len() as int);
    }

    proof fn lemma_round_trip(&self, bytes: Seq<u8>, pos: int) {
        lemma_entries_writable(self.0@, self.0@.len() as int);
        lemma_entries_writable(self.0@, 0);
        let all = entries_before(self.0@, self.0@.len() as int);
        let written = self.encoding()->Ok_0;
        assert(written.subrange(0, 1) =~= seq![wire::OPEN_DICT]);
        lemma_piece_stands(bytes, pos, written, 0, seq![wire::OPEN_DICT]);
        assert(bytes[pos] == bytes.subrange(pos, pos + 1)[0]);
        assert(written.subrange(1, all.len() as int + 2) =~= all.push(wire::CLOSE));
        lemma_piece_stands(bytes, pos, written, 1, all.push(wire::CLOSE));
        lemma_entries_round_trip(self.0@, bytes, pos + 1, 0);
        assert(self.0@.take(0) =~= Seq::<(String, V)>::empty());
        assert(self.0@.skip(0) =~= self.0@);
        assert(all.push(wire::CLOSE).subrange(all.len() as int, all.len() as int + 1) =~= seq![wire::CLOSE]);
        lemma_piece_stands(bytes, pos + 1, all.push(wire::CLOSE), all.len() as int, seq![wire::CLOSE]);
        assert(bytes[pos + 1 + all.len()] == bytes.subrange(pos + 1 + all.len(), pos + 1 + all.len() + 1)[0]);
    }

    proof fn lemma_written_by_grammar(&self) {
        lemma_entries_writable(self.0@, self.0@.len() as int);
        lemma_entries_by_grammar(self.0@, self.0@.len() as int);
    }

    proof fn lemma_read_by_grammar(bytes: Seq<u8>, pos: int) {
        lemma_entries_read_by_grammar::<V>(bytes, pos + 1);
    }

    proof fn lemma_same_model(&self, other: &Self) {
        let mine = impls::entry_models(self.0@);
        let theirs = impls::entry_models(other.0@);
        assert(mine.len() == theirs.len());
        assert forall|i: int| 0 <= i < self.0@.len() implies (self.0@[i].0@ == other.0@[i].0@
            && self.0@[i].1.deep_view() == other.0@[i].1.deep_view()) by {
            assert(mine[i] == theirs[i]);
            vstd::utf8::encode_utf8_decode_utf8(self.0@[i].0@);
            vstd::utf8::encode_utf8_decode_utf8(other.0@[i].0@);
            self.0@[i].1.lemma_same_model(&other.0@[i].1);
        }
        assert(self.deep_view() =~= other.deep_view());
    }
}

/// The bytes of the items before the item at `k` open the bytes of all the
/// items.
pub proof fn lemma_encoded_items_kept(items: Seq<WireValue>, k: nat, i: int)
    requires
        k <= items.len(),
        0 <= i < wire::encode_items(items, k).len(),
    ensures
        i < wire::encode_items(items, items.len()).len(),
        wire::encode_items(items, items.len())[i] == wire::encode_items(items, k)[i],
    decreases items.len() - k,
{
    if k < items.len() {
        lemma_encoded_items_kept(items, k + 1, i);
    }
}

/// The bytes of the entries before the entry at `k` open the bytes of all
/// the entries.
pub proof fn lemma_encoded_entries_kept(entries: Seq<(Seq<u8>, WireValue)>, k: nat, i: int)
    requires
        k <= entries.len(),
        0 <= i < wire::encode_entries(entries, k).len(),
    ensures
        i < wire::encode_entries(entries, entries.len()).len(),
        wire::encode_entries(entries, entries.len())[i] == wire::encode_entries(entries, k)[i],
    decreases entries.len() - k,
{
    if k < entries.len() {
        lemma_encoded_entries_kept(entries, k + 1, i);
    }
}

/// Round trip by the grammar: where the bytes of a wire value stand in an
/// input, whatever stands around them, the grammar finds that value there and
/// ends just behind them. Its bytes are one at least, and the first of them
/// does not close a list.
pub proof fn lemma_grammar_round_trip(v: WireValue, bytes: Seq<u8>, pos: int)
    requires
        stands_at(bytes, pos, wire::encode(v)),
    ensures
        wire::parse(bytes, pos) == Some((v, pos + wire::encode(v).len())),
        wire::encode(v).len() > 0,
        wire::encode(v)[0] != wire::CLOSE,
    decreases v,
{
    let written = wire::encode(v);
    match v {
        WireValue::Integer(i) => {
            wire::lemma_integer_round_trip(bytes, pos, i);
            assert(bytes[pos] == bytes.subrange(pos, pos + written.len())[0]);
        },
        WireValue::Bytes(content) => {
            wire::lemma_byte_string_round_trip(bytes, pos, content);
            wire::lemma_decimal_digits(content.len());
            assert(bytes[pos] == bytes.subrange(pos, pos + written.len())[0]);
        },
        WireValue::List(items) => {
            let all = wire::encode_items(items, items.len());
            let n = all.len() as int;
            assert(bytes[pos] == bytes.subrange(pos, pos + written.len())[0]);
            assert(written.subrange(1, n + 2) =~= all.push(wire::CLOSE));
            lemma_piece_stands(bytes, pos, written, 1, all.push(wire::CLOSE));
            lemma_grammar_items_round_trip(items, bytes, pos + 1, 0);
            assert(items.skip(0) =~= items);
        },
        WireValue::Dict(entries) => {
            let all = wire::encode_entries(entries, entries.len());
            let n = all.len() as int;
            assert(bytes[pos] == bytes.subrange(pos, pos + written.len())[0]);
            assert(written.subrange(1, n + 2) =~= all.push(wire::CLOSE));
            lemma_piece_stands(bytes, pos, written, 1, all.push(wire::CLOSE));
            lemma_grammar_entries_round_trip(entries, bytes, pos + 1, 0);
            assert(entries.skip(0) =~= entries);
        },
    }
}

/// Where the bytes of wire values stand in an input in a row, with `e`
/// behind them, the grammar finds the values from the one at `k` on at the
/// start of that one, and stops at that `e`.
pub proof fn lemma_grammar_items_round_trip(items: Seq<WireValue>, bytes: Seq<u8>, start: int, k: nat)
    requires
        k <= items.len(),
        stands_at(bytes, start, wire::encode_items(items, items.len()).push(wire::CLOSE)),
    ensures
        wire::parse_items(bytes, start + wire::encode_items(items, k).len()) == Some(
            (items.skip(k as int), start + wire::encode_items(items, items.len()).len()),
        ),
    decreases items, items.len() - k,
{
    let all = wire::encode_items(items, items.len());
    let n = all.len() as int;
    let whole = all.push(wire::CLOSE);
    let front = wire::encode_items(items, k).len() as int;
    let here = start + front;
    if k == items.len() {
        assert(whole.subrange(n, n + 1) =~= seq![wire::CLOSE]);
        lemma_piece_stands(bytes, start, whole, n, seq![wire::CLOSE]);
        assert(bytes[here] == bytes.subrange(here, here + 1)[0]);
        assert(items.skip(k as int) =~= Seq::<WireValue>::empty());
    } else {
        let item = items[k as int];
        let written = wire::encode(item);
        let more = wire::encode_items(items, k + 1);
        assert(more == wire::encode_items(items, k) + written);
        if more.len() > 0 {
            lemma_encoded_items_kept(items, k + 1, more.len() - 1);
        }
        assert forall|i: int| 0 <= i < written.len() implies whole.subrange(front, front + written.len())[i]
            == written[i] by {
            lemma_encoded_items_kept(items, k + 1, front + i);
        }
        assert(whole.subrange(front, front + written.len()) =~= written);
        lemma_piece_stands(bytes, start, whole, front, written);
        lemma_grammar_round_trip(item, bytes, here);
        assert(bytes[here] == bytes.subrange(here, here + written.len())[0]);
        lemma_grammar_items_round_trip(items, bytes, start, k + 1);
        assert(seq![item] + items.skip(k as int + 1) =~= items.skip(k as int));
    }
}

/// Where the bytes of wire entries stand in an input in a row, with `e`
/// behind them, the grammar finds the entries from the one at `k` on at the
/// start of that one, and stops at that `e`.
pub proof fn lemma_grammar_entries_round_trip(
    entries: Seq<(Seq<u8>, WireValue)>,
    bytes: Seq<u8>,
    start: int,
    k: nat,
)
    requires
        k <= entries.len(),
        stands_at(bytes, start, wire::encode_entries(entries, entries.len()).push(wire::CLOSE)),
    ensures
        wire::parse_entries(bytes, start + wire::encode_entries(entries, k).len()) == Some(
            (entries.skip(k as int), start + wire::encode_entries(entries, entries.len()).len()),
        ),
    decreases entries, entries.len() - k,
{
    let all = wire::encode_entries(entries, entries.len());
    let n = all.len() as int;
    let whole = all.push(wire::CLOSE);
    let front = wire::encode_entries(entries, k).len() as int;
    let here = start + front;
    if k == entries.len() {
        assert(whole.subrange(n, n + 1) =~= seq![wire::CLOSE]);
        lemma_piece_stands(bytes, start, whole, n, seq![wire::CLOSE]);
        assert(bytes[here] == bytes.subrange(here, here + 1)[0]);
        assert(entries.skip(k as int) =~= Seq::<(Seq<u8>, WireValue)>::empty());
    } else {
        let entry = entries[k as int];
        let key_written = wire::encode_byte_string(entry.0);
        let value_written = wire::encode(entry.1);
        let middle = here + key_written.len();
        let more = wire::encode_entries(entries, k + 1);
        assert(more == wire::encode_entries(entries, k) + key_written + value_written);
        if more.len() > 0 {
            lemma_encoded_entries_kept(entries, k + 1, more.len() - 1);
        }
        assert forall|i: int| 0 <= i < key_written.len() implies whole.subrange(front, front + key_written.len())[i]
            == key_written[i] by {
            lemma_encoded_entries_kept(entries, k + 1, front + i);
        }
        assert(whole.subrange(front, front + key_written.len()) =~= key_written);
        lemma_piece_stands(bytes, start, whole, front, key_written);
        assert forall|i: int| 0 <= i < value_written.len() implies whole.subrange(
            front + key_written.len(),
            front + key_written.len() + value_written.len(),
        )[i] == value_written[i] by {
            lemma_encoded_entries_kept(entries, k + 1, front + key_written.len() + i);
        }
        assert(whole.subrange(front + key_written.len(), front + key_written.len() + value_written.len())
            =~= value_written);
        lemma_piece_stands(bytes, start, whole, front + key_written.len(), value_written);
        wire::lemma_byte_string_round_trip(bytes, here, entry.0);
        wire::lemma_decimal_digits(entry.0.len());
        assert(bytes[here] == bytes.subrange(here, here + key_written.len())[0]);
        lemma_grammar_round_trip(entry.1, bytes, middle);
        lemma_grammar_entries_round_trip(entries, bytes, start, k + 1);
        assert(seq![entry] + entries.skip(k as int + 1) =~= entries.skip(k as int));
    }
}

} // verus!
