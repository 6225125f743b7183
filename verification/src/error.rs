//! The ways in which reading or reporting a response can fail.

use vstd::prelude::*;
use vstd::string::*;

verus! {

/// `std::io::Error`, carried through as it came: nothing is known of its
/// inside.
#[verifier::external_type_specification]
#[verifier::external_body]
pub struct ExIoError(std::io::Error);

/// `std::str::Utf8Error`, carried through as it came.
#[verifier::external_type_specification]
#[verifier::external_body]
pub struct ExUtf8Error(std::str::Utf8Error);

/// `std::num::ParseIntError`, which only ever arrives to be turned into
/// `MCError::Parse`.
#[verifier::external_type_specification]
#[verifier::external_body]
pub struct ExParseIntError(std::num::ParseIntError);

#[derive(Debug)]
pub enum MCError {
    /// A stat line has a key of unsupported shape or a number that cannot
    /// be read.
    Parse,
    /// The connection failed.
    IO(std::io::Error),
    /// The response is not valid UTF-8.
    UTF8(std::str::Utf8Error),
    /// A stat that the report needs is missing; the name is given.
    Stat(String),
}

/// What an error says, without the detail carried by outside values.
pub enum Fault {
    Parse,
    IO,
    UTF8,
    Stat(Seq<char>),
}

impl View for MCError {
    type V = Fault;

    open spec fn view(&self) -> Fault {
        match self {
            MCError::Parse => Fault::Parse,
            MCError::IO(_) => Fault::IO,
            MCError::UTF8(_) => Fault::UTF8,
            MCError::Stat(s) => Fault::Stat(s@),
        }
    }
}

impl MCError {
    /// The message shown to the user: the kind of error, then its detail.
    pub fn message(&self) -> (r: String)
        ensures
            match self {
                MCError::Parse => r@ == "Parse error"@,
                MCError::IO(_) => "IO error: "@.is_prefix_of(r@),
                MCError::UTF8(_) => "UTF8 error: "@.is_prefix_of(r@),
                MCError::Stat(s) => r@ == "Stat error: "@ + s@,
            },
    {
        match self {
            MCError::Parse => String::from_str("Parse error"),
            MCError::IO(e) => {
                let detail = e.to_string();
                String::from_str("IO error: ").concat(detail.as_str())
            },
            MCError::UTF8(e) => {
                let detail = e.to_string();
                String::from_str("UTF8 error: ").concat(detail.as_str())
            },
            MCError::Stat(s) => String::from_str("Stat error: ").concat(s.as_str()),
        }
    }
}

impl From<std::num::ParseIntError> for MCError {
    fn from(e: std::num::ParseIntError) -> (r: MCError) {
        MCError::Parse
    }
}

impl vstd::std_specs::convert::FromSpecImpl<std::num::ParseIntError> for MCError {
    open spec fn obeys_from_spec() -> bool {
        true
    }

    open spec fn from_spec(e: std::num::ParseIntError) -> MCError {
        MCError::Parse
    }
}

impl From<std::io::Error> for MCError {
    fn from(e: std::io::Error) -> (r: MCError) {
        MCError::IO(e)
    }
}

impl vstd::std_specs::convert::FromSpecImpl<std::io::Error> for MCError {
    open spec fn obeys_from_spec() -> bool {
        true
    }

    open spec fn from_spec(e: std::io::Error) -> MCError {
        MCError::IO(e)
    }
}

impl From<std::str::Utf8Error> for MCError {
    fn from(e: std::str::Utf8Error) -> (r: MCError) {
        MCError::UTF8(e)
    }
}

impl vstd::std_specs::convert::FromSpecImpl<std::str::Utf8Error> for MCError {
    open spec fn obeys_from_spec() -> bool {
        true
    }

    open spec fn from_spec(e: std::str::Utf8Error) -> MCError {
        MCError::UTF8(e)
    }
}

} // verus!
