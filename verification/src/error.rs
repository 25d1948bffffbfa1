//! What can end a lookup other than an answer.
use vstd::prelude::*;

verus! {

/// Why a lookup was given up. That a symbol file was found nowhere is no
/// error: these are the failures that a caller must be able to tell from it.
#[derive(Debug, PartialEq, Eq)]
pub enum LookupError {
    /// The URL of a request is no absolute URL.
    InvalidUrl(String),
    /// The request for this URL got no response.
    Transport(String),
    /// The cache entry at this path exists but could not be read.
    CacheRead(String),
    /// The cache entry at this path could not be written.
    CacheWrite(String),
    /// What a server sent for this file name could not be unpacked.
    Decompress(String),
}

/// A [`LookupError`] with its text as a sequence of characters.
pub enum ErrorModel {
    InvalidUrl(Seq<char>),
    Transport(Seq<char>),
    CacheRead(Seq<char>),
    CacheWrite(Seq<char>),
    Decompress(Seq<char>),
}

impl View for LookupError {
    type V = ErrorModel;

    open spec fn view(&self) -> ErrorModel {
        match self {
            LookupError::InvalidUrl(s) => ErrorModel::InvalidUrl(s@),
            LookupError::Transport(s) => ErrorModel::Transport(s@),
            LookupError::CacheRead(s) => ErrorModel::CacheRead(s@),
            LookupError::CacheWrite(s) => ErrorModel::CacheWrite(s@),
            LookupError::Decompress(s) => ErrorModel::Decompress(s@),
        }
    }
}

impl ErrorModel {
    /// The sentence that describes the error.
    pub open spec fn message(self) -> Seq<char> {
        match self {
            ErrorModel::InvalidUrl(s) => "Invalid url: "@ + s,
            ErrorModel::Transport(s) => "Error while processing: "@ + s,
            ErrorModel::CacheRead(s) => "Unable to read the file "@ + s,
            ErrorModel::CacheWrite(s) => "Cannot write file "@ + s,
            ErrorModel::Decompress(s) => "Unable to read the file "@ + s + " from the server"@,
        }
    }
}

impl LookupError {
    /// The sentence that describes the error.
    pub fn message(&self) -> (r: String)
        ensures
            r@ == self@.message(),
    {
        match self {
            LookupError::InvalidUrl(s) => String::from_str("Invalid url: ").concat(s.as_str()),
            LookupError::Transport(s) => String::from_str("Error while processing: ").concat(
                s.as_str(),
            ),
            LookupError::CacheRead(s) => String::from_str("Unable to read the file ").concat(
                s.as_str(),
            ),
            LookupError::CacheWrite(s) => String::from_str("Cannot write file ").concat(s.as_str()),
            LookupError::Decompress(s) => String::from_str("Unable to read the file ").concat(
                s.as_str(),
            ).concat(" from the server"),
        }
    }
}

impl Clone for LookupError {
    fn clone(&self) -> (r: Self)
        ensures
            r@ == self@,
    {
        match self {
            LookupError::InvalidUrl(s) => LookupError::InvalidUrl(s.clone()),
            LookupError::Transport(s) => LookupError::Transport(s.clone()),
            LookupError::CacheRead(s) => LookupError::CacheRead(s.clone()),
            LookupError::CacheWrite(s) => LookupError::CacheWrite(s.clone()),
            LookupError::Decompress(s) => LookupError::Decompress(s.clone()),
        }
    }
}

} // verus!
