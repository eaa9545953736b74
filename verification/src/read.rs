//! The input source: an immutable byte buffer and a cursor into it.

use vstd::prelude::*;
use vstd::slice::slice_subrange;
use vstd::string::StringSliceAdditionalSpecFns;
use crate::error::Error;
use crate::wire;

verus! {

#[verifier::external_type_specification]
#[verifier::external_body]
pub struct ExUtf8Error(core::str::Utf8Error);

/// `core::str::from_utf8`: the same bytes as a string slice where they are
/// valid UTF-8, and an error where they are not.
#[verifier::external_body]
pub(crate) fn str_from_utf8<'a>(bytes: &'a [u8]) -> (r: Result<&'a str, core::str::Utf8Error>)
    ensures
        r is Ok <==> vstd::utf8::valid_utf8(bytes@),
        r is Ok ==> r.unwrap().spec_bytes() == bytes@,
{
    core::str::from_utf8(bytes)
}

/// A cursor over an input that is read front to back.
///
/// Every read leaves the input as it is, and moves the cursor forward by the
/// number of bytes it hands out. The cursor never leaves the input, whose
/// length fits in `usize`.
pub trait Read<'de>: Sized {
    /// The whole input.
    spec fn bytes(&self) -> Seq<u8>;

    /// The index of the next byte that `next` or `peek` gives.
    spec fn pos(&self) -> int;

    /// Hands out the next `len` bytes as text, without copying them.
    ///
    /// Fails with `BufferTooShort` where fewer than `len` bytes are left, and
    /// then the cursor stays. Fails with `InvalidText` where the bytes are not
    /// valid UTF-8; the cursor has then moved past them all the same.
    fn read_str(&mut self, len: usize) -> (r: Result<&'de str, Error>)
        ensures
            final(self).bytes() == old(self).bytes(),
            0 <= old(self).pos() <= old(self).bytes().len() <= usize::MAX,
            old(self).pos() + len > old(self).bytes().len() ==> {
                &&& r == Err::<&str, Error>(Error::BufferTooShort)
                &&& final(self).pos() == old(self).pos()
            },
            old(self).pos() + len <= old(self).bytes().len() ==> {
                let content = old(self).bytes().subrange(old(self).pos(), old(self).pos() + len);
                &&& final(self).pos() == old(self).pos() + len
                &&& vstd::utf8::valid_utf8(content) ==> r is Ok && r.unwrap().spec_bytes() == content
                &&& !vstd::utf8::valid_utf8(content) ==> r == Err::<&str, Error>(Error::InvalidText)
            },
    ;

    /// Hands out the next `len` bytes, without copying them.
    ///
    /// Fails with `BufferTooShort` where fewer than `len` bytes are left, and
    /// then the cursor stays.
    fn read_bytes(&mut self, len: usize) -> (r: Result<&'de [u8], Error>)
        ensures
            final(self).bytes() == old(self).bytes(),
            0 <= old(self).pos() <= old(self).bytes().len() <= usize::MAX,
            old(self).pos() + len > old(self).bytes().len() ==> {
                &&& r == Err::<&[u8], Error>(Error::BufferTooShort)
                &&& final(self).pos() == old(self).pos()
            },
            old(self).pos() + len <= old(self).bytes().len() ==> {
                &&& r is Ok
                &&& r.unwrap()@ == old(self).bytes().subrange(old(self).pos(), old(self).pos() + len)
                &&& final(self).pos() == old(self).pos() + len
            },
    ;

    /// Hands out the byte at the cursor and moves past it, or fails with `Eof`
    /// where the input is used up.
    fn next(&mut self) -> (r: Result<u8, Error>)
        ensures
            final(self).bytes() == old(self).bytes(),
            0 <= old(self).pos() <= old(self).bytes().len() <= usize::MAX,
            r == wire::byte_at(old(self).bytes(), old(self).pos()),
            final(self).pos() == old(self).pos() + if r is Ok { 1int } else { 0 },
    ;

    /// Hands out the byte at the cursor and stays, or fails with `Eof` where
    /// the input is used up.
    fn peek(&mut self) -> (r: Result<u8, Error>)
        ensures
            final(self).bytes() == old(self).bytes(),
            0 <= old(self).pos() <= old(self).bytes().len() <= usize::MAX,
            final(self).pos() == old(self).pos(),
            r == wire::byte_at(old(self).bytes(), old(self).pos()),
    ;
}

/// An input source over a slice of bytes.
pub struct SliceRead<'a> {
    slice: &'a [u8],
    /// The index of the next byte that `next` or `peek` gives.
    index: usize,
}

/// An input source over a string slice.
pub struct StrRead<'a> {
    delegate: SliceRead<'a>,
}

impl<'a> SliceRead<'a> {
    #[verifier::type_invariant]
    spec fn index_in_bounds(self) -> bool {
        self.index <= self.slice@.len()
    }

    /// An input source at the start of `slice`.
    pub fn new(slice: &'a [u8]) -> (r: Self)
        ensures
            r.bytes() == slice@,
            r.pos() == 0,
    {
        SliceRead { slice: slice, index: 0 }
    }
}

impl<'a> StrRead<'a> {
    /// An input source at the start of the bytes of `s`.
    pub fn new(s: &'a str) -> (r: Self)
        ensures
            r.bytes() == s.spec_bytes(),
            r.pos() == 0,
    {
        StrRead { delegate: SliceRead::new(s.as_bytes()) }
    }
}

impl<'a> Read<'a> for SliceRead<'a> {
    closed spec fn bytes(&self) -> Seq<u8> {
        self.slice@
    }

    closed spec fn pos(&self) -> int {
        self.index as int
    }

    fn read_str(&mut self, len: usize) -> (r: Result<&'a str, Error>) {
        match self.read_bytes(len) {
            Ok(content) => match str_from_utf8(content) {
                Ok(s) => Ok(s),
                Err(_) => Err(Error::InvalidText),
            },
            Err(e) => Err(e),
        }
    }

    fn read_bytes(&mut self, len: usize) -> (r: Result<&'a [u8], Error>) {
        proof {
            use_type_invariant(&*self);
        }
        if len <= self.slice.len() - self.index {
            let content = slice_subrange(self.slice, self.index, self.index + len);
            self.index += len;
            Ok(content)
        } else {
            Err(Error::BufferTooShort)
        }
    }

    fn next(&mut self) -> (r: Result<u8, Error>) {
        proof {
            use_type_invariant(&*self);
        }
        if self.index < self.slice.len() {
            let ch = self.slice[self.index];
            self.index += 1;
            Ok(ch)
        } else {
            Err(Error::Eof)
        }
    }

    fn peek(&mut self) -> (r: Result<u8, Error>) {
        proof {
            use_type_invariant(&*self);
        }
        if self.index < self.slice.len() {
            Ok(self.slice[self.index])
        } else {
            Err(Error::Eof)
        }
    }
}

impl<'a> Read<'a> for StrRead<'a> {
    closed spec fn bytes(&self) -> Seq<u8> {
        self.delegate.bytes()
    }

    closed spec fn pos(&self) -> int {
        self.delegate.pos()
    }

    fn read_str(&mut self, len: usize) -> (r: Result<&'a str, Error>) {
        self.delegate.read_str(len)
    }

    fn read_bytes(&mut self, len: usize) -> (r: Result<&'a [u8], Error>) {
        self.delegate.read_bytes(len)
    }

    fn next(&mut self) -> (r: Result<u8, Error>) {
        self.delegate.next()
    }

    fn peek(&mut self) -> (r: Result<u8, Error>) {
        self.delegate.peek()
    }
}

} // verus!
