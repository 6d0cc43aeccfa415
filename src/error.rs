//! The errors that reading a netrc file can end in.
use vstd::prelude::*;

verus! {

/// `std::io::Error` is carried through unchanged.
#[verifier::external_type_specification]
#[verifier::external_body]
pub struct ExIoError(std::io::Error);

/// Why a netrc file could not be read.
#[derive(Debug)]
pub enum Error {
    /// The underlying source failed; the cause is kept.
    Io(std::io::Error),
    /// The text breaks the netrc grammar: a message and the 1-based line
    /// number at which the fault was found.
    Parse(String, usize),
}

/// What a parse error carries: its message and its line number.
pub open spec fn parse_error_view(e: &Error) -> Option<(Seq<char>, int)> {
    match e {
        Error::Parse(m, l) => Some((m@, *l as int)),
        Error::Io(_) => None,
    }
}

} // verus!
