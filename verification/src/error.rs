//! What can go wrong while an archive is written or read.

use vstd::prelude::*;
use crate::text::join2;

verus! {

/// A failure of an archive operation.
#[derive(Debug, Clone)]
pub enum Error {
    /// The file name's suffix selects no known format.
    UnsupportedFormat { filename: String },
    /// The content hash of an archive differs from the one that was expected.
    DigestMismatch { expected: String, actual: String },
    /// A file system operation failed on a path.
    IoFailure { operation: String, path: String },
    /// A codec or a container rejected the data.
    CodecFailure { detail: String },
    /// A background task ended abnormally.
    TaskFailure { detail: String },
}

impl Error {
    /// The text of the error's message.
    pub open spec fn message_text(self) -> Seq<char> {
        match self {
            Error::UnsupportedFormat { filename } => {
                "could not determine compression type from suffix of "@ + filename@
            },
            Error::DigestMismatch { expected, actual } => {
                "digest mismatch: expected: "@ + expected@ + " actual: "@ + actual@
            },
            Error::IoFailure { operation, path } => operation@ + " failed: "@ + path@,
            Error::CodecFailure { detail } => "codec failure: "@ + detail@,
            Error::TaskFailure { detail } => "failed to join task: "@ + detail@,
        }
    }

    /// The failure of a codec that gave `detail` as its reason.
    pub fn codec(detail: String) -> (r: Error)
        ensures
            r == (Error::CodecFailure { detail }),
    {
        Error::CodecFailure { detail }
    }

    /// The error as a message for a reader.
    pub fn message(&self) -> (r: String)
        ensures
            r@ == self.message_text(),
    {
        match self {
            Error::UnsupportedFormat { filename } => {
                join2("could not determine compression type from suffix of ", filename.as_str())
            },
            Error::DigestMismatch { expected, actual } => {
                let mut r = join2("digest mismatch: expected: ", expected.as_str());
                r.append(" actual: ");
                r.append(actual.as_str());
                r
            },
            Error::IoFailure { operation, path } => {
                let mut r = join2(operation.as_str(), " failed: ");
                r.append(path.as_str());
                r
            },
            Error::CodecFailure { detail } => join2("codec failure: ", detail.as_str()),
            Error::TaskFailure { detail } => join2("failed to join task: ", detail.as_str()),
        }
    }
}

} // verus!
