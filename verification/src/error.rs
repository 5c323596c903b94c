//! The gateway's error kinds and how each is answered: the HTTP status and
//! the Anthropic error type that the response body carries.
use vstd::prelude::*;

use crate::text::{concat, decimal};

verus! {

/// An error answered to the client in Anthropic's error format.
#[derive(Debug)]
pub enum AppError {
    AuthenticationError(String),
    InvalidRequestError(String),
    RateLimitError(String),
    ApiError(String),
    TimeoutError(String),
}

/// The HTTP status that answers an error of the kind of `e`.
pub open spec fn status_of(e: AppError) -> u16 {
    match e {
        AppError::AuthenticationError(_) => 401,
        AppError::InvalidRequestError(_) => 400,
        AppError::RateLimitError(_) => 429,
        AppError::ApiError(_) => 502,
        AppError::TimeoutError(_) => 504,
    }
}

/// The Anthropic error type named in the body that answers `e`.
pub open spec fn error_type_of(e: AppError) -> Seq<char> {
    match e {
        AppError::AuthenticationError(_) => "authentication_error"@,
        AppError::InvalidRequestError(_) => "invalid_request_error"@,
        AppError::RateLimitError(_) => "rate_limit_error"@,
        AppError::ApiError(_) => "api_error"@,
        AppError::TimeoutError(_) => "timeout_error"@,
    }
}

/// The message that `e` carries.
pub open spec fn message_of(e: AppError) -> Seq<char> {
    match e {
        AppError::AuthenticationError(m) => m@,
        AppError::InvalidRequestError(m) => m@,
        AppError::RateLimitError(m) => m@,
        AppError::ApiError(m) => m@,
        AppError::TimeoutError(m) => m@,
    }
}

impl AppError {
    /// The HTTP status code of the error response.
    pub fn status_code(&self) -> (r: u16)
        ensures
            r == status_of(*self),
    {
        match self {
            AppError::AuthenticationError(_) => 401,
            AppError::InvalidRequestError(_) => 400,
            AppError::RateLimitError(_) => 429,
            AppError::ApiError(_) => 502,
            AppError::TimeoutError(_) => 504,
        }
    }

    /// The Anthropic error type (`error.type` in the response body).
    pub fn error_type(&self) -> (r: String)
        ensures
            r@ == error_type_of(*self),
    {
        match self {
            AppError::AuthenticationError(_) => "authentication_error".to_owned(),
            AppError::InvalidRequestError(_) => "invalid_request_error".to_owned(),
            AppError::RateLimitError(_) => "rate_limit_error".to_owned(),
            AppError::ApiError(_) => "api_error".to_owned(),
            AppError::TimeoutError(_) => "timeout_error".to_owned(),
        }
    }

    /// The human-readable message (`error.message` in the response body).
    pub fn message(&self) -> (r: String)
        ensures
            r@ == message_of(*self),
    {
        match self {
            AppError::AuthenticationError(m) => m.clone(),
            AppError::InvalidRequestError(m) => m.clone(),
            AppError::RateLimitError(m) => m.clone(),
            AppError::ApiError(m) => m.clone(),
            AppError::TimeoutError(m) => m.clone(),
        }
    }

    /// The error for a request to the backend that failed before any
    /// response arrived: a timeout, a failed connection, or another failure
    /// described by `detail`.
    pub fn from_backend_failure(timed_out: bool, connect_failed: bool, detail: &str) -> (r: AppError)
        ensures
            timed_out ==> (r matches AppError::TimeoutError(m) && m@
                == "Request to backend timed out"@),
            !timed_out && connect_failed ==> (r matches AppError::ApiError(m) && m@
                == "Failed to connect to backend"@),
            !timed_out && !connect_failed ==> (r matches AppError::ApiError(m) && m@
                == "Backend request failed: "@ + detail@),
    {
        if timed_out {
            AppError::TimeoutError("Request to backend timed out".to_owned())
        } else if connect_failed {
            AppError::ApiError("Failed to connect to backend".to_owned())
        } else {
            AppError::ApiError(concat("Backend request failed: ", detail))
        }
    }

    /// The error for a response that could not be built, described by `detail`.
    pub fn from_response_build_failure(detail: &str) -> (r: AppError)
        ensures
            r matches AppError::ApiError(m) && m@ == "Failed to build response: "@ + detail@,
    {
        AppError::ApiError(concat("Failed to build response: ", detail))
    }
}

} // verus!
