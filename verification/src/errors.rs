//! The error taxonomy of the lifecycle core, with its wire mapping.

use vstd::prelude::*;

verus! {

/// Every failure a lifecycle operation can report. Each variant maps to
/// one HTTP status and one dotted error code in the response envelope.
#[derive(Clone, Copy, Debug, PartialEq, Eq, Structural)]
pub enum ApiError {
    /// Missing, malformed or expired credential.
    Unauthenticated,
    /// Wrong role, or not the owner/assignee of the resource.
    Forbidden,
    /// The order id does not resolve.
    NotFound,
    /// Illegal transition, lost accept race, or already-terminal order.
    Conflict,
    /// Malformed request value (empty items, bad date range, ...).
    Validation,
    /// Store or signing failure.
    Internal,
}

impl ApiError {
    pub open spec fn spec_http_status(self) -> u16 {
        match self {
            ApiError::Unauthenticated => 401,
            ApiError::Forbidden => 403,
            ApiError::NotFound => 404,
            ApiError::Conflict => 409,
            ApiError::Validation => 400,
            ApiError::Internal => 500,
        }
    }

    #[verifier::when_used_as_spec(spec_http_status)]
    pub fn http_status(self) -> (r: u16)
        ensures
            r == self.spec_http_status(),
    {
        match self {
            ApiError::Unauthenticated => 401,
            ApiError::Forbidden => 403,
            ApiError::NotFound => 404,
            ApiError::Conflict => 409,
            ApiError::Validation => 400,
            ApiError::Internal => 500,
        }
    }

    pub open spec fn spec_code(self) -> Seq<char> {
        match self {
            ApiError::Unauthenticated => "auth.invalid"@,
            ApiError::Forbidden => "auth.forbidden"@,
            ApiError::NotFound => "order.not_found"@,
            ApiError::Conflict => "order.conflict"@,
            ApiError::Validation => "validation.failed"@,
            ApiError::Internal => "server.error"@,
        }
    }

    /// The dotted error code of the response envelope.
    pub fn code(self) -> (r: &'static str)
        ensures
            r@ == self.spec_code(),
    {
        match self {
            ApiError::Unauthenticated => "auth.invalid",
            ApiError::Forbidden => "auth.forbidden",
            ApiError::NotFound => "order.not_found",
            ApiError::Conflict => "order.conflict",
            ApiError::Validation => "validation.failed",
            ApiError::Internal => "server.error",
        }
    }
}

} // verus!
