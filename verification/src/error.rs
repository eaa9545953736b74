use vstd::prelude::*;

verus! {

/// The ways a decode or an encode can fail.
#[derive(Clone, Debug, PartialEq)]
pub enum Error {
    /// A failure reported by the value being built or written.
    Message(String),
    /// The leading byte of a self-describing value starts no known kind.
    Syntax,
    /// A byte was asked for past the end of the input.
    Eof,
    /// A read of a given length reaches past the end of the input.
    BufferTooShort,
    /// Bytes read as text are not valid UTF-8.
    InvalidText,
    /// A length prefix holds a byte that is neither a digit nor the `:` that
    /// closes it, or ends before that `:`.
    ExpectedColon,
    /// An integer does not open with `i`.
    ExpectedI,
    /// The digits of an integer are missing or out of range, or a length
    /// prefix has no digit before its `:`.
    ExpectedInteger,
    /// A dictionary does not open with `d`.
    ExpectedMap,
    /// A dictionary is not closed by `e`.
    ExpectedMapEnd,
    /// A list does not open with `l`.
    ExpectedList,
    /// A list is not closed by `e`.
    ExpectedListEnd,
    /// The digits of an integer are followed by something other than `e`.
    UnexpectedChar,
    /// Bytes remain after the top-level value.
    TrailingCharacters,
    /// The kind of value asked for is not part of this encoding.
    UnsupportedKind,
}

impl Error {
    /// What `description` says of this error, character by character.
    pub open spec fn message(&self) -> Seq<char> {
        match self {
            Error::Message(message) => message@,
            Error::Syntax => "unknown kind of value"@,
            Error::Eof => "unexpected end of input"@,
            Error::BufferTooShort => "input ends inside a byte string"@,
            Error::InvalidText => "text is not valid UTF-8"@,
            Error::ExpectedColon => "expected a length and a colon"@,
            Error::ExpectedI => "expected the start of an integer"@,
            Error::ExpectedInteger => "expected digits"@,
            Error::ExpectedMap => "expected a dictionary"@,
            Error::ExpectedMapEnd => "expected the end of a dictionary"@,
            Error::ExpectedList => "expected a list"@,
            Error::ExpectedListEnd => "expected the end of a list"@,
            Error::UnexpectedChar => "unexpected character in an integer"@,
            Error::TrailingCharacters => "trailing characters"@,
            Error::UnsupportedKind => "kind of value not supported"@,
        }
    }

    /// The failure that a value being built or written reports in its own
    /// words.
    pub fn custom(msg: &str) -> (e: Error)
        ensures
            e is Message,
            e->Message_0@ == msg@,
    {
        Error::Message(msg.to_owned())
    }

    /// A short account of this error, for people to read.
    pub fn description(&self) -> (r: &str)
        ensures
            r@ == self.message(),
    {
        match self {
            Error::Message(message) => message.as_str(),
            Error::Syntax => "unknown kind of value",
            Error::Eof => "unexpected end of input",
            Error::BufferTooShort => "input ends inside a byte string",
            Error::InvalidText => "text is not valid UTF-8",
            Error::ExpectedColon => "expected a length and a colon",
            Error::ExpectedI => "expected the start of an integer",
            Error::ExpectedInteger => "expected digits",
            Error::ExpectedMap => "expected a dictionary",
            Error::ExpectedMapEnd => "expected the end of a dictionary",
            Error::ExpectedList => "expected a list",
            Error::ExpectedListEnd => "expected the end of a list",
            Error::UnexpectedChar => "unexpected character in an integer",
            Error::TrailingCharacters => "trailing characters",
            Error::UnsupportedKind => "kind of value not supported",
        }
    }
}

} // verus!
