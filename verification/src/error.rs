use vstd::prelude::*;

verus! {

/// The failure taxonomy of the API layer.
///
/// Every handler failure falls into one of these classes; each carries the
/// human-readable message that the response envelope shows to the client.
#[derive(Debug)]
pub enum ApiError {
    /// An identifier did not resolve to a stored row (also covers a
    /// syntactically malformed identifier).
    NotFound { message: String },
    /// A create would violate a uniqueness invariant, or a duplicate
    /// association was attempted.
    Conflict { message: String },
    /// Any other error surfaced by the persistence layer; the diagnostic
    /// text is embedded in the message.
    StoreFailure { message: String },
    /// A malformed request body or query.
    ValidationFailure { message: String },
}

impl ApiError {
    /// The HTTP status code of this failure class.
    pub open spec fn spec_status_code(&self) -> u16 {
        match self {
            ApiError::NotFound { .. } => 404,
            ApiError::Conflict { .. } => 409,
            ApiError::StoreFailure { .. } => 500,
            ApiError::ValidationFailure { .. } => 400,
        }
    }

    /// The `status` field of the failure envelope: store failures report
    /// `"error"`, every other class reports `"fail"`.
    pub open spec fn spec_status_label(&self) -> Seq<char> {
        match self {
            ApiError::StoreFailure { .. } => "error"@,
            _ => "fail"@,
        }
    }

    /// The message carried by this failure.
    pub open spec fn spec_message(&self) -> Seq<char> {
        match self {
            ApiError::NotFound { message } => message@,
            ApiError::Conflict { message } => message@,
            ApiError::StoreFailure { message } => message@,
            ApiError::ValidationFailure { message } => message@,
        }
    }

    pub fn status_code(&self) -> (code: u16)
        ensures
            code == self.spec_status_code(),
    {
        match self {
            ApiError::NotFound { .. } => 404,
            ApiError::Conflict { .. } => 409,
            ApiError::StoreFailure { .. } => 500,
            ApiError::ValidationFailure { .. } => 400,
        }
    }

    pub fn status_label(&self) -> (label: &'static str)
        ensures
            label@ == self.spec_status_label(),
    {
        match self {
            ApiError::StoreFailure { .. } => "error",
            _ => "fail",
        }
    }

    pub fn message(&self) -> (message: &String)
        ensures
            message@ == self.spec_message(),
    {
        match self {
            ApiError::NotFound { message } => message,
            ApiError::Conflict { message } => message,
            ApiError::StoreFailure { message } => message,
            ApiError::ValidationFailure { message } => message,
        }
    }
}

} // verus!
