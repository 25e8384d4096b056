//! The failure taxonomy shared by every operation on the line.
use vstd::prelude::*;

verus! {

/// Why an operation on the line did not complete.
#[derive(Debug, Clone, Copy, PartialEq, Eq, Structural)]
pub enum Error {
    /// The peer is driving the line low during the start handshake.
    Busy,
    /// The line is not held by the driver (lent out and never returned).
    Unavailable,
    /// Reading the level of the line failed.
    IO,
    /// Nobody asserted the line during a presence check.
    NoResponse,
}

/// The short message that describes each error.
pub open spec fn message(e: Error) -> Seq<char> {
    match e {
        Error::IO => "io"@,
        Error::Busy => "busy"@,
        Error::NoResponse => "no response"@,
        Error::Unavailable => "unavailable"@,
    }
}

impl Error {
    /// A short human-readable rendering of the error.
    pub fn as_str(self) -> (r: &'static str)
        ensures
            r@ == message(self),
    {
        match self {
            Error::IO => "io",
            Error::Busy => "busy",
            Error::NoResponse => "no response",
            Error::Unavailable => "unavailable",
        }
    }
}

} // verus!
