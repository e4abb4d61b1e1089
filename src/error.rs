//! Kernel-style error codes.
use vstd::prelude::*;

verus! {

/// A failure, named after the errno it is reported as.
#[derive(Clone, Copy, Debug, PartialEq, Eq, Structural)]
pub enum Error {
    /// `EINVAL`: an argument is out of range or malformed.
    InvalidArgument,
    /// `ENOMEM`: a mapping or an allocation could not be made.
    OutOfMemory,
    /// `EDOM`: an address does not have the required alignment.
    OutOfDomain,
    /// `ENOENT`: the requested item does not exist.
    NotFound,
    /// `EBUSY`: the resource is already in use.
    Busy,
}

impl Error {
    /// The negative errno this error is reported as.
    pub fn to_errno(&self) -> (r: i32)
        ensures
            r == match *self {
                Error::InvalidArgument => -22i32,
                Error::OutOfMemory => -12i32,
                Error::OutOfDomain => -33i32,
                Error::NotFound => -2i32,
                Error::Busy => -16i32,
            },
    {
        match *self {
            Error::InvalidArgument => -22,
            Error::OutOfMemory => -12,
            Error::OutOfDomain => -33,
            Error::NotFound => -2,
            Error::Busy => -16,
        }
    }
}

} // verus!
