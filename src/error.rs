use vstd::prelude::*;

verus! {

/// Why an upload operation did not succeed.
#[derive(Debug, Clone, Copy, PartialEq, Eq, Structural)]
pub enum UploadError {
    /// The upload id is unknown, or its upload was already completed.
    NotFound,
    /// The request cannot be served as stated (a chunk size of zero).
    InvalidRequest,
    /// Completion was asked for before every chunk arrived.
    Incomplete { received: usize, total: usize },
    /// A server-side failure (storage, or an upload id that was already taken).
    Internal,
}

impl UploadError {
    /// The HTTP status that reports this error to a client.
    pub fn status_code(&self) -> (r: u16)
        ensures
            r == match *self {
                UploadError::NotFound => 404u16,
                UploadError::InvalidRequest => 400u16,
                UploadError::Incomplete { .. } => 400u16,
                UploadError::Internal => 500u16,
            },
    {
        match self {
            UploadError::NotFound => 404,
            UploadError::InvalidRequest => 400,
            UploadError::Incomplete { .. } => 400,
            UploadError::Internal => 500,
        }
    }
}

} // verus!
