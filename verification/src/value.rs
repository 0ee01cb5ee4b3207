//! Structured data as it is read and written: strings, lists, records and
//! the other kinds of value that a document may hold.

use vstd::prelude::*;
use vstd::string::StringExecFns;

verus! {

/// A value of a structured document.
#[derive(Debug, PartialEq, Eq)]
pub enum Value {
    /// Nothing.
    Null,
    /// A truth value.
    Bool(bool),
    /// A number, as it is written.
    Number(String),
    /// A string.
    Text(String),
    /// Values in order.
    List(Vec<Value>),
    /// Named values in the order in which they are written. A name may occur
    /// more than once.
    Record(Vec<(String, Value)>),
}

/// The kind of value that is expected at a place.
#[derive(Debug, Clone, Copy, PartialEq, Eq, Structural)]
pub enum Expected {
    /// A string.
    Text,
    /// A list.
    List,
    /// A record.
    Record,
    /// A string or a list of strings.
    TextOrList,
}

/// Why a value could not be decoded.
#[derive(Debug, Clone, PartialEq, Eq)]
pub enum DecodeError {
    /// A value is of another kind than the one expected at its place.
    WrongKind(Expected),
    /// A list that holds at least one item was expected, and an empty one
    /// found.
    Empty,
    /// An item could not be made of a string. The string is handed back.
    Unparsable(String),
    /// A change is a list of four values, and one of another length was
    /// found: that length is given.
    WrongLength(usize),
    /// A release has no `repo_url`.
    MissingUrl,
    /// A field of a release is given twice: its name is given.
    Duplicate(String),
}

/// A reason for which a value could not be decoded, as plain data.
pub ghost enum DecodeFault {
    WrongKind(Expected),
    Empty,
    Unparsable(Seq<char>),
    WrongLength(nat),
    MissingUrl,
    Duplicate(Seq<char>),
}

impl View for DecodeError {
    type V = DecodeFault;

    open spec fn view(&self) -> DecodeFault {
        match self {
            DecodeError::WrongKind(expected) => DecodeFault::WrongKind(*expected),
            DecodeError::Empty => DecodeFault::Empty,
            DecodeError::Unparsable(text) => DecodeFault::Unparsable(text@),
            DecodeError::WrongLength(len) => DecodeFault::WrongLength(*len as nat),
            DecodeError::MissingUrl => DecodeFault::MissingUrl,
            DecodeError::Duplicate(name) => DecodeFault::Duplicate(name@),
        }
    }
}

impl Expected {
    /// The kind in words.
    pub fn to_string(&self) -> (text: String)
        ensures
            text@ == match self {
                Expected::Text => "a string"@,
                Expected::List => "a list"@,
                Expected::Record => "a record"@,
                Expected::TextOrList => "one string or more"@,
            },
    {
        match self {
            Expected::Text => String::from_str("a string"),
            Expected::List => String::from_str("a list"),
            Expected::Record => String::from_str("a record"),
            Expected::TextOrList => String::from_str("one string or more"),
        }
    }
}

impl DecodeError {
    /// What went wrong, in words.
    pub fn to_string(&self) -> (text: String)
        ensures
            text@ == match self {
                DecodeError::WrongKind(Expected::Text) => "invalid type: expected a string"@,
                DecodeError::WrongKind(Expected::List) => "invalid type: expected a list"@,
                DecodeError::WrongKind(Expected::Record) => "invalid type: expected a record"@,
                DecodeError::WrongKind(Expected::TextOrList) =>
                    "invalid type: expected one string or more"@,
                DecodeError::Empty => "expected at least one item"@,
                DecodeError::Unparsable(rejected) => "failed to parse from string: "@ + rejected@,
                DecodeError::WrongLength(_) => "invalid length: expected a change of 4 values"@,
                DecodeError::MissingUrl => "missing field `repo_url`"@,
                DecodeError::Duplicate(name) => "duplicate field: "@ + name@,
            },
    {
        match self {
            DecodeError::WrongKind(Expected::Text) => String::from_str(
                "invalid type: expected a string",
            ),
            DecodeError::WrongKind(Expected::List) => String::from_str(
                "invalid type: expected a list",
            ),
            DecodeError::WrongKind(Expected::Record) => String::from_str(
                "invalid type: expected a record",
            ),
            DecodeError::WrongKind(Expected::TextOrList) => String::from_str(
                "invalid type: expected one string or more",
            ),
            DecodeError::Empty => String::from_str("expected at least one item"),
            DecodeError::Unparsable(rejected) => {
                let mut text = String::from_str("failed to parse from string: ");
                text.append(rejected.as_str());
                text
            },
            DecodeError::WrongLength(_) => String::from_str(
                "invalid length: expected a change of 4 values",
            ),
            DecodeError::MissingUrl => String::from_str("missing field `repo_url`"),
            DecodeError::Duplicate(name) => {
                let mut text = String::from_str("duplicate field: ");
                text.append(name.as_str());
                text
            },
        }
    }
}

} // verus!
