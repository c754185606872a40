//! Error taxonomy of the bar: one sum type surfaced to the event loop.

use vstd::prelude::*;

verus! {

/// Failure taxonomy of the bar.
///
/// `Drawing` is a surface or context failure of the 2D library,
/// `ProtocolConn` a broken X connection (fatal), `ProtocolRequest` a single
/// failed X request, `InvalidColor` a bad hex color string, and `Other` a
/// catch-all carrying a human-readable message.
#[derive(Debug, Clone)]
pub enum MyBarError {
    Drawing(String),
    ProtocolConn(String),
    ProtocolRequest(String),
    InvalidColor(String),
    Other(String),
}

pub type MyResult<T> = Result<T, MyBarError>;

impl MyBarError {
    /// The detail text carried by the error, whichever variant holds it.
    pub fn message(&self) -> (r: &str)
        ensures
            r@ == self.detail(),
    {
        match self {
            MyBarError::Drawing(s) => s.as_str(),
            MyBarError::ProtocolConn(s) => s.as_str(),
            MyBarError::ProtocolRequest(s) => s.as_str(),
            MyBarError::InvalidColor(s) => s.as_str(),
            MyBarError::Other(s) => s.as_str(),
        }
    }

    /// The detail text of an error, as a sequence of characters.
    pub open spec fn detail(&self) -> Seq<char> {
        match self {
            MyBarError::Drawing(s) => s@,
            MyBarError::ProtocolConn(s) => s@,
            MyBarError::ProtocolRequest(s) => s@,
            MyBarError::InvalidColor(s) => s@,
            MyBarError::Other(s) => s@,
        }
    }
}

} // verus!
