use vstd::prelude::*;

verus! {

/// Why a sampling step did not produce a value.
#[derive(Clone, Copy, Debug, PartialEq, Eq, Structural)]
pub enum Error {
    /// A file was missing or could not be read.
    Io,
    /// An expected field was absent or was not a number of the expected kind.
    Parse,
    /// A user id has no row in the accounts table.
    Lookup,
}

impl Error {
    /// The name of the error kind, for messages.
    pub fn label(&self) -> (r: &'static str)
        ensures
            r@ == (match *self {
                Error::Io => "IoError"@,
                Error::Parse => "ParseError"@,
                Error::Lookup => "LookupError"@,
            }),
    {
        match self {
            Error::Io => "IoError",
            Error::Parse => "ParseError",
            Error::Lookup => "LookupError",
        }
    }
}

} // verus!
