//! The recoverable failure of a file operation.

use vstd::prelude::*;

verus! {

/// The error of the standard library's I/O, carried as it came.
#[verifier::external_type_specification]
#[verifier::external_body]
pub struct ExIoError(std::io::Error);

/// The error of the JSON serializer and deserializer, carried as it came.
#[verifier::external_type_specification]
#[verifier::external_body]
pub struct ExJsonError(serde_json::Error);

/// Why a file operation failed. Every failure is handed to the caller with
/// its cause; none is retried or dropped.
#[derive(Debug)]
pub enum FileError {
    /// The file system refused: the file is missing, unreadable or unwritable.
    Io(std::io::Error),
    /// The file was read, and its bytes are not UTF-8 text.
    InvalidText,
    /// The value could not be written as JSON, or the text is not JSON of the
    /// shape asked for.
    Json(serde_json::Error),
}

} // verus!
