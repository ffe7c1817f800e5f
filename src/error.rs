//! Error values of the renderer.

use vstd::prelude::*;

verus! {

/// Declares `std::io::Error`, carried unchanged inside `ErrorKind::IoError`.
#[verifier::external_type_specification]
#[verifier::external_body]
pub struct ExIoError(std::io::Error);

/// What went wrong.
#[derive(Debug)]
pub enum ErrorKind {
    /// Text that could not be read as a number; holds a description of the failure.
    ParseError(String),
    /// Reading or writing failed.
    IoError(std::io::Error),
}

/// An error of the renderer.
#[derive(Debug)]
pub struct Error {
    kind: ErrorKind,
}

impl Error {
    /// What went wrong.
    pub closed spec fn kind_spec(&self) -> ErrorKind {
        self.kind
    }

    /// The error of the given kind.
    pub closed spec fn new_spec(kind: ErrorKind) -> Error {
        Error { kind }
    }

    pub fn new(kind: ErrorKind) -> (e: Error)
        ensures
            e == Error::new_spec(kind),
            e.kind_spec() == kind,
    {
        Error { kind: kind }
    }

    pub fn kind(&self) -> (k: &ErrorKind)
        ensures
            *k == self.kind_spec(),
    {
        &self.kind
    }
}

/// The result of a fallible operation of the renderer.
pub type Result<T> = std::result::Result<T, Error>;

impl From<std::io::Error> for Error {
    fn from(e: std::io::Error) -> (r: Error) {
        Error { kind: ErrorKind::IoError(e) }
    }
}

impl vstd::std_specs::convert::FromSpecImpl<std::io::Error> for Error {
    open spec fn obeys_from_spec() -> bool {
        true
    }

    open spec fn from_spec(e: std::io::Error) -> Error {
        Error::new_spec(ErrorKind::IoError(e))
    }
}

} // verus!
