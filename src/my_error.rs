//! The library's error types.

use vstd::prelude::*;

verus! {

/// An error described by a message alone.
#[derive(Debug, Clone, PartialEq, Eq)]
pub struct CustomError {
    pub message: String,
}

impl CustomError {
    pub fn new(msg: &str) -> (r: CustomError)
        ensures
            r.message@ == msg@,
    {
        CustomError { message: String::from_str(msg) }
    }
}

/// What can go wrong while repackaging one archive.
#[derive(Debug, Clone, PartialEq, Eq)]
pub enum MyError {
    /// A filesystem failure, with its message.
    Io(String),
    /// The source is not a readable archive, with the reader's message.
    ContainerCorrupt(String),
    /// No decoder exists for the charset that was settled on (the charset).
    EncodingUnavailable(String),
    /// The decoder for the charset (given) could not be run.
    DecodeFailed(String),
    /// An entry name that could escape the staging directory (the name).
    PathTraversal(String),
    /// The directory to pack is not a directory (its path).
    SourceNotFound(String),
    /// The archive to write already exists (its path).
    DestinationExists(String),
    /// Any other failure.
    Custom(CustomError),
}

impl MyError {
    /// A one-line description, prefixed by the kind of error.
    pub fn message(&self) -> (r: String)
        ensures
            r@ == self.message_spec(),
    {
        let (prefix, detail) = match self {
            MyError::Io(m) => ("IO error: ", m),
            MyError::ContainerCorrupt(m) => ("corrupt archive: ", m),
            MyError::EncodingUnavailable(m) => ("no decoder for encoding: ", m),
            MyError::DecodeFailed(m) => ("decode failed, encoding: ", m),
            MyError::PathTraversal(m) => ("Invalid file name: ", m),
            MyError::SourceNotFound(m) => ("source directory not found: ", m),
            MyError::DestinationExists(m) => ("destination already exists: ", m),
            MyError::Custom(e) => ("custom error: ", &e.message),
        };
        let mut r = String::from_str(prefix);
        r.append(detail.as_str());
        r
    }

    pub open spec fn message_spec(&self) -> Seq<char> {
        match self {
            MyError::Io(m) => "IO error: "@ + m@,
            MyError::ContainerCorrupt(m) => "corrupt archive: "@ + m@,
            MyError::EncodingUnavailable(m) => "no decoder for encoding: "@ + m@,
            MyError::DecodeFailed(m) => "decode failed, encoding: "@ + m@,
            MyError::PathTraversal(m) => "Invalid file name: "@ + m@,
            MyError::SourceNotFound(m) => "source directory not found: "@ + m@,
            MyError::DestinationExists(m) => "destination already exists: "@ + m@,
            MyError::Custom(e) => "custom error: "@ + e.message@,
        }
    }
}

} // verus!
