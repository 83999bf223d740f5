use vstd::prelude::*;

verus! {

/// Why resolving an instance's repository and path to a file failed.
#[derive(Clone, Copy, PartialEq, Eq, Debug, Structural)]
pub enum LoadFilesError {
    NotFound,
    AccessDenied,
    Transport,
    Decode,
}

/// Why reading a file's content failed.
#[derive(Clone, Copy, PartialEq, Eq, Debug, Structural)]
pub enum GetFilesReaderError {
    NotFound,
    AccessDenied,
    Transport,
    Decode,
}

} // verus!
