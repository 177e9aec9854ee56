//! The ways in which embedding can fail.

use vstd::prelude::*;

verus! {

/// Why an image could not be given its metadata.
#[derive(Clone, Copy, Debug, PartialEq, Eq, Structural)]
pub enum EmbedError {
    /// The bytes do not begin as the container format demands.
    InvalidInputFormat,
    /// A segment announces more bytes than the stream holds, or the stream
    /// ends before its image data begins.
    TruncatedSegment,
    /// The file name ends in no extension that stands for JPEG or PNG.
    UnsupportedFormat,
    /// A codec could not decode the image or encode the result.
    EncodingError,
}

/// The outcome of a step that makes bytes: the bytes where it succeeded, the
/// error where it failed.
pub open spec fn outcome_of(result: Result<Vec<u8>, EmbedError>) -> Result<Seq<u8>, EmbedError> {
    match result {
        Ok(bytes) => Ok(bytes@),
        Err(e) => Err(e),
    }
}

impl EmbedError {
    /// A short description of the failure.
    pub fn message(&self) -> (text: &'static str)
        ensures
            text@ == (match *self {
                EmbedError::InvalidInputFormat => "invalid input format"@,
                EmbedError::TruncatedSegment => "truncated segment"@,
                EmbedError::UnsupportedFormat => "unsupported file format"@,
                EmbedError::EncodingError => "encoding error"@,
            }),
    {
        match self {
            EmbedError::InvalidInputFormat => "invalid input format",
            EmbedError::TruncatedSegment => "truncated segment",
            EmbedError::UnsupportedFormat => "unsupported file format",
            EmbedError::EncodingError => "encoding error",
        }
    }
}

} // verus!
