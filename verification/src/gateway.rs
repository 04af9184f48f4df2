//! Gateway request plumbing: the API error taxonomy with its HTTP status
//! mapping, role and subject extraction from request headers, and the
//! authenticated user context handed to handlers.

use vstd::prelude::*;
use vstd::string::StringSliceAdditionalSpecFns;

use crate::rbac::{spec_role_of, parse_role, Role};

verus! {

/// The gateway's error taxonomy.
#[derive(Debug, Clone, PartialEq, Eq)]
pub enum ApiError {
    /// No usable credentials.
    Unauthorized,
    /// The policy denied the request.
    Forbidden { reason: String },
    /// The token bucket is exhausted; retry after the given seconds.
    RateLimited { retry_after_secs: u64 },
    /// A collaborator call failed.
    Upstream(String),
    /// Unexpected internal failure.
    Internal,
    /// The request failed validation.
    Validation { message: String },
}

impl ApiError {
    /// The HTTP status this error maps to.
    pub fn status_code(&self) -> (r: u16)
        ensures
            r == self.spec_status_code(),
    {
        match self {
            ApiError::Unauthorized => 401,
            ApiError::Forbidden { .. } => 403,
            ApiError::RateLimited { .. } => 429,
            ApiError::Upstream(_) => 502,
            ApiError::Internal => 500,
            ApiError::Validation { .. } => 400,
        }
    }

    /// The HTTP status this error maps to.
    pub open spec fn spec_status_code(self) -> u16 {
        match self {
            ApiError::Unauthorized => 401,
            ApiError::Forbidden { .. } => 403,
            ApiError::RateLimited { .. } => 429,
            ApiError::Upstream(_) => 502,
            ApiError::Internal => 500,
            ApiError::Validation { .. } => 400,
        }
    }

    /// The machine-readable error code of the JSON error body.
    pub fn code(&self) -> (r: &'static str)
        ensures
            r@ == self.spec_code(),
    {
        match self {
            ApiError::Unauthorized => "unauthorized",
            ApiError::Forbidden { .. } => "forbidden",
            ApiError::RateLimited { .. } => "rate_limited",
            ApiError::Upstream(_) => "upstream_error",
            ApiError::Internal => "internal_error",
            ApiError::Validation { .. } => "invalid_request",
        }
    }

    /// The machine-readable error code of the JSON error body.
    pub open spec fn spec_code(self) -> Seq<char> {
        match self {
            ApiError::Unauthorized => "unauthorized"@,
            ApiError::Forbidden { .. } => "forbidden"@,
            ApiError::RateLimited { .. } => "rate_limited"@,
            ApiError::Upstream(_) => "upstream_error"@,
            ApiError::Internal => "internal_error"@,
            ApiError::Validation { .. } => "invalid_request"@,
        }
    }

    /// The `Retry-After` seconds to send, if any.
    pub fn retry_after_secs(&self) -> (r: Option<u64>)
        ensures
            match self {
                ApiError::RateLimited { retry_after_secs } => r == Some(*retry_after_secs),
                _ => r is None,
            },
    {
        match self {
            ApiError::RateLimited { retry_after_secs } => Some(*retry_after_secs),
            _ => None,
        }
    }
}

/// The authenticated caller attached to a request after authorization.
#[derive(Debug, Clone)]
pub struct UserContext {
    pub subject: String,
    pub role: Role,
}

/// The role a request header value denotes: an absent header or an unknown
/// name means `Guest`.
pub open spec fn spec_extract_role(header: Option<&str>) -> Role {
    match header {
        Some(v) => match spec_role_of(v.spec_bytes()) {
            Some(role) => role,
            None => Role::Guest,
        },
        None => Role::Guest,
    }
}

/// Extract the caller's role from the role header value.
pub fn extract_role(header: Option<&str>) -> (r: Role)
    ensures
        r == spec_extract_role(header),
{
    match header {
        Some(v) => match parse_role(v) {
            Some(role) => role,
            None => Role::Guest,
        },
        None => Role::Guest,
    }
}

/// The subject a request header value denotes: absent means `anonymous`.
pub open spec fn spec_extract_subject(header: Option<&str>) -> Seq<char> {
    match header {
        Some(v) => v@,
        None => "anonymous"@,
    }
}

/// Extract the caller's subject from the subject header value.
pub fn extract_subject(header: Option<&str>) -> (r: String)
    ensures
        r@ == spec_extract_subject(header),
{
    match header {
        Some(v) => v.to_owned(),
        None => String::from_str("anonymous"),
    }
}

} // verus!
