//! Error taxonomy of the store.
//!
//! Recoverable conditions (capacity, not-found, validation) are reported as
//! typed `ApiError` values the caller can branch on; the backup protocol's
//! fatal conditions (chunk order, hash mismatch) are reported as
//! `BackupError` values and leave prior state intact.

use vstd::prelude::*;

verus! {

/// Payload carried by most `ApiError` variants: a stable tag, a human
/// readable message, the reporting store, the method, and its inputs.
#[derive(Debug)]
pub struct ErrorMessage {
    pub tag: String,
    pub message: String,
    pub location: String,
    pub method_name: String,
    pub inputs: Option<Vec<String>>,
}

/// One rejected field of a validation run.
#[derive(Debug)]
pub struct ValidationResponse {
    pub field: String,
    pub message: String,
}

/// Typed failure of a store or registry operation.
#[derive(Debug)]
pub enum ApiError {
    Unexpected(ErrorMessage),
    NotFound(ErrorMessage),
    BadRequest(ErrorMessage),
    Unauthorized(ErrorMessage),
    CanisterAtCapacity(ErrorMessage),
    ValidationError(Vec<ValidationResponse>),
}

/// Which `ApiError` variant a helper should construct.
#[derive(Clone, Copy, Debug)]
pub enum ApiErrorType {
    Unexpected,
    NotFound,
    BadRequest,
    Unauthorized,
    CanisterAtCapacity,
}

impl ApiError {
    /// True when the error is the given variant and carries the given tag.
    pub open spec fn has_tag(self, variant: ApiErrorType, tag: Seq<char>) -> bool {
        match self {
            ApiError::Unexpected(m) => variant is Unexpected && m.tag@ == tag,
            ApiError::NotFound(m) => variant is NotFound && m.tag@ == tag,
            ApiError::BadRequest(m) => variant is BadRequest && m.tag@ == tag,
            ApiError::Unauthorized(m) => variant is Unauthorized && m.tag@ == tag,
            ApiError::CanisterAtCapacity(m) => variant is CanisterAtCapacity && m.tag@ == tag,
            ApiError::ValidationError(_) => false,
        }
    }
}

/// Builds the `ApiError` variant selected by `error_type`, carrying the
/// given tag, message and call context.
pub fn api_error(
    error_type: ApiErrorType,
    tag: &str,
    message: &str,
    location: &str,
    method_name: &str,
    inputs: Option<Vec<String>>,
) -> (r: ApiError)
    ensures
        r.has_tag(error_type, tag@),
{
    let error_message = ErrorMessage {
        tag: tag.to_owned(),
        message: message.to_owned(),
        location: location.to_owned(),
        method_name: method_name.to_owned(),
        inputs,
    };
    match error_type {
        ApiErrorType::Unexpected => ApiError::Unexpected(error_message),
        ApiErrorType::NotFound => ApiError::NotFound(error_message),
        ApiErrorType::BadRequest => ApiError::BadRequest(error_message),
        ApiErrorType::Unauthorized => ApiError::Unauthorized(error_message),
        ApiErrorType::CanisterAtCapacity => ApiError::CanisterAtCapacity(error_message),
    }
}

/// Fatal failure of a backup or chunked transfer operation. Every variant
/// aborts the whole call and leaves prior state unchanged.
#[derive(Clone, Copy, Debug, PartialEq, Eq, Structural)]
pub enum BackupError {
    /// A chunk arrived whose index is not the expected next index.
    ChunkOrderError,
    /// The reassembled chunks do not hash to the stored content hash.
    HashMismatch,
    /// The reassembled bytes do not decode to a record table.
    DecodeError,
    /// A chunk index beyond the stored chunk count was asked for.
    IndexOutOfRange,
    /// A finalized backup is still present; clear it before uploading.
    NotEmpty,
}

} // verus!
