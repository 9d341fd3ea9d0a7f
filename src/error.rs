use vstd::prelude::*;

use crate::fs::Error as FsError;

verus! {

/// `std::io::Error`, carried through as an opaque value: the library only
/// passes on what the file system reported.
#[verifier::external_type_specification]
#[verifier::external_body]
pub struct ExIoError(std::io::Error);

/// The error of this library: a message of the caller's, a failure of the
/// file system, or a failure of the listing itself.
#[derive(Debug)]
pub enum Error {
    Custom(String),
    Io(std::io::Error),
    Fs(FsError),
}

/// The result of the operations of this library.
pub type Result<T> = core::result::Result<T, Error>;

impl Error {
    /// An error that carries the given message.
    pub fn custom(msg: &str) -> (r: Self)
        ensures
            r matches Error::Custom(m) && m@ == msg@,
    {
        Error::Custom(msg.to_owned())
    }
}

impl From<&str> for Error {
    fn from(value: &str) -> (r: Self) {
        Error::Custom(value.to_owned())
    }
}

impl vstd::std_specs::convert::FromSpecImpl<&str> for Error {
    open spec fn obeys_from_spec() -> bool {
        false
    }

    open spec fn from_spec(v: &str) -> Self {
        arbitrary()
    }
}

impl From<String> for Error {
    fn from(value: String) -> (r: Self) {
        Error::Custom(value)
    }
}

impl vstd::std_specs::convert::FromSpecImpl<String> for Error {
    open spec fn obeys_from_spec() -> bool {
        true
    }

    open spec fn from_spec(v: String) -> Self {
        Error::Custom(v)
    }
}

impl From<std::io::Error> for Error {
    fn from(value: std::io::Error) -> (r: Self) {
        Error::Io(value)
    }
}

impl vstd::std_specs::convert::FromSpecImpl<std::io::Error> for Error {
    open spec fn obeys_from_spec() -> bool {
        true
    }

    open spec fn from_spec(v: std::io::Error) -> Self {
        Error::Io(v)
    }
}

impl From<FsError> for Error {
    fn from(value: FsError) -> (r: Self) {
        Error::Fs(value)
    }
}

impl vstd::std_specs::convert::FromSpecImpl<FsError> for Error {
    open spec fn obeys_from_spec() -> bool {
        true
    }

    open spec fn from_spec(v: FsError) -> Self {
        Error::Fs(v)
    }
}

} // verus!
