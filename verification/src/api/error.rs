//! Errors of the HTTP API and their RFC 9457 Problem Details form.
use crate::text::{copy_str, push_str};
use vstd::prelude::*;

verus! {

/// Category of a business error raised below the HTTP layer.
#[derive(Clone, Copy, Debug, PartialEq, Eq, Structural)]
pub enum SignalErrorKind {
    /// The caller supplied an invalid argument.
    InvalidArgument,
    /// The addressed resource does not exist.
    NotFound,
    /// An unexpected internal failure.
    Internal,
}

/// Field level validation failure.
#[derive(Clone, Debug)]
pub struct FieldViolation {
    /// Dot separated field path.
    pub field: String,
    /// Human readable description.
    pub description: String,
}

/// A business error from the application or domain layer.
#[derive(Clone, Debug)]
pub struct SignalError {
    /// Category of the error.
    pub kind: SignalErrorKind,
    /// Human readable message.
    pub message: String,
    /// Field level violations attached to the error.
    pub field_violations: Vec<FieldViolation>,
}

/// HTTP status of a business error category.
pub open spec fn kind_status(kind: SignalErrorKind) -> u16 {
    match kind {
        SignalErrorKind::InvalidArgument => 400,
        SignalErrorKind::NotFound => 404,
        SignalErrorKind::Internal => 500,
    }
}

/// Stable code of a business error category.
pub open spec fn kind_code(kind: SignalErrorKind) -> Seq<char> {
    match kind {
        SignalErrorKind::InvalidArgument => "INVALID_ARGUMENT"@,
        SignalErrorKind::NotFound => "NOT_FOUND"@,
        SignalErrorKind::Internal => "INTERNAL"@,
    }
}

impl SignalError {
    /// Builds an error without field violations.
    pub fn new(kind: SignalErrorKind, message: String) -> (e: SignalError)
        ensures
            e.kind == kind,
            e.message@ == message@,
            e.field_violations@.len() == 0,
    {
        SignalError { kind, message, field_violations: Vec::new() }
    }

    /// HTTP status code for this error.
    pub fn to_http_status(&self) -> (s: u16)
        ensures
            s == kind_status(self.kind),
    {
        match self.kind {
            SignalErrorKind::InvalidArgument => 400,
            SignalErrorKind::NotFound => 404,
            SignalErrorKind::Internal => 500,
        }
    }

    /// Stable error code.
    pub fn code(&self) -> (c: &'static str)
        ensures
            c@ == kind_code(self.kind),
    {
        match self.kind {
            SignalErrorKind::InvalidArgument => "INVALID_ARGUMENT",
            SignalErrorKind::NotFound => "NOT_FOUND",
            SignalErrorKind::Internal => "INTERNAL",
        }
    }
}

/// Error type returned by HTTP handlers.
#[derive(Clone, Debug)]
pub enum HttpError {
    /// A business error from the application/domain layer.
    Signal(SignalError),
    /// The request body could not be parsed; holds the parser's message.
    InvalidJson(String),
    /// An authentication failure.
    Unauthenticated(String),
    /// An authorization failure.
    PermissionDenied(String),
    /// The requested endpoint is not implemented.
    NotImplemented(String),
    /// A generic internal error.
    Internal(String),
    /// The caller exceeded its request budget.
    RateLimited(String),
    /// The request exceeds a size limit.
    PayloadTooLarge(String),
}

/// HTTP status code of an error.
pub open spec fn http_status(e: HttpError) -> u16 {
    match e {
        HttpError::Signal(s) => kind_status(s.kind),
        HttpError::InvalidJson(_) => 400,
        HttpError::Unauthenticated(_) => 401,
        HttpError::PermissionDenied(_) => 403,
        HttpError::NotImplemented(_) => 501,
        HttpError::Internal(_) => 500,
        HttpError::RateLimited(_) => 429,
        HttpError::PayloadTooLarge(_) => 413,
    }
}

/// Stable machine readable code of an error.
pub open spec fn http_code(e: HttpError) -> Seq<char> {
    match e {
        HttpError::Signal(s) => kind_code(s.kind),
        HttpError::InvalidJson(_) => "INVALID_JSON"@,
        HttpError::Unauthenticated(_) => "UNAUTHENTICATED"@,
        HttpError::PermissionDenied(_) => "PERMISSION_DENIED"@,
        HttpError::NotImplemented(_) => "NOT_IMPLEMENTED"@,
        HttpError::Internal(_) => "INTERNAL"@,
        HttpError::RateLimited(_) => "RATE_LIMITED"@,
        HttpError::PayloadTooLarge(_) => "PAYLOAD_TOO_LARGE"@,
    }
}

/// Human readable rendering of an error: a fixed prefix and the detail.
pub open spec fn http_display(e: HttpError) -> Seq<char> {
    match e {
        HttpError::Signal(s) => "business error: "@ + s.message@,
        HttpError::InvalidJson(m) => "invalid request body: "@ + m@,
        HttpError::Unauthenticated(m) => "unauthenticated: "@ + m@,
        HttpError::PermissionDenied(m) => "permission denied: "@ + m@,
        HttpError::NotImplemented(m) => "not implemented: "@ + m@,
        HttpError::Internal(m) => "internal error: "@ + m@,
        HttpError::RateLimited(m) => "rate limited: "@ + m@,
        HttpError::PayloadTooLarge(m) => "payload too large: "@ + m@,
    }
}

/// Field violations that an error carries into its Problem Details.
pub open spec fn http_violations(e: HttpError) -> Seq<FieldViolation> {
    match e {
        HttpError::Signal(s) => s.field_violations@,
        _ => Seq::empty(),
    }
}

/// RFC 7807/9457 Problem Details response.
#[derive(Clone, Debug)]
pub struct ProblemDetails {
    /// Stable machine readable error code.
    pub code: String,
    /// Human readable message suitable for external callers.
    pub message: String,
    /// HTTP status code.
    pub status: u16,
    /// Request identifier to correlate with logs.
    pub request_id: Option<String>,
    /// Field level violations, if any.
    pub field_violations: Vec<FieldViolation>,
}

/// Two violations carry the same text.
pub open spec fn same_violation(a: FieldViolation, b: FieldViolation) -> bool {
    a.field@ == b.field@ && a.description@ == b.description@
}

/// Copies a list of violations, text for text.
pub fn copy_violations(v: &Vec<FieldViolation>) -> (r: Vec<FieldViolation>)
    ensures
        r@.len() == v@.len(),
        forall|i: int| 0 <= i < v@.len() ==> same_violation(#[trigger] r@[i], v@[i]),
{
    let mut r: Vec<FieldViolation> = Vec::new();
    let mut i: usize = 0;
    while i < v.len()
        invariant
            i <= v.len(),
            r@.len() == i,
            forall|k: int| 0 <= k < i ==> same_violation(#[trigger] r@[k], v@[k]),
        decreases v.len() - i,
    {
        let f = copy_str(v[i].field.as_str());
        let d = copy_str(v[i].description.as_str());
        r.push(FieldViolation { field: f, description: d });
        i = i + 1;
    }
    r
}

impl HttpError {
    /// HTTP status code for this error.
    pub fn status(&self) -> (s: u16)
        ensures
            s == http_status(*self),
    {
        match self {
            HttpError::Signal(e) => e.to_http_status(),
            HttpError::InvalidJson(_) => 400,
            HttpError::Unauthenticated(_) => 401,
            HttpError::PermissionDenied(_) => 403,
            HttpError::NotImplemented(_) => 501,
            HttpError::Internal(_) => 500,
            HttpError::RateLimited(_) => 429,
            HttpError::PayloadTooLarge(_) => 413,
        }
    }

    /// Stable error code.
    pub fn code(&self) -> (c: &'static str)
        ensures
            c@ == http_code(*self),
    {
        match self {
            HttpError::Signal(e) => e.code(),
            HttpError::InvalidJson(_) => "INVALID_JSON",
            HttpError::Unauthenticated(_) => "UNAUTHENTICATED",
            HttpError::PermissionDenied(_) => "PERMISSION_DENIED",
            HttpError::NotImplemented(_) => "NOT_IMPLEMENTED",
            HttpError::Internal(_) => "INTERNAL",
            HttpError::RateLimited(_) => "RATE_LIMITED",
            HttpError::PayloadTooLarge(_) => "PAYLOAD_TOO_LARGE",
        }
    }

    /// Human readable rendering (`to_string` of the error).
    pub fn message(&self) -> (m: String)
        ensures
            m@ == http_display(*self),
    {
        let (prefix, detail): (&str, &str) = match self {
            HttpError::Signal(e) => ("business error: ", e.message.as_str()),
            HttpError::InvalidJson(m) => ("invalid request body: ", m.as_str()),
            HttpError::Unauthenticated(m) => ("unauthenticated: ", m.as_str()),
            HttpError::PermissionDenied(m) => ("permission denied: ", m.as_str()),
            HttpError::NotImplemented(m) => ("not implemented: ", m.as_str()),
            HttpError::Internal(m) => ("internal error: ", m.as_str()),
            HttpError::RateLimited(m) => ("rate limited: ", m.as_str()),
            HttpError::PayloadTooLarge(m) => ("payload too large: ", m.as_str()),
        };
        let mut s = copy_str(prefix);
        push_str(&mut s, detail);
        s
    }

    /// Converts to a `ProblemDetails` value; internal errors hide their detail.
    pub fn to_problem(&self, request_id: Option<String>) -> (p: ProblemDetails)
        ensures
            p.code@ == http_code(*self),
            p.status == http_status(*self),
            p.message@ == (match *self {
                HttpError::Internal(_) => "internal server error"@,
                _ => http_display(*self),
            }),
            p.request_id == request_id,
            p.field_violations@.len() == http_violations(*self).len(),
            forall|i: int|
                0 <= i < p.field_violations@.len() ==> same_violation(
                    #[trigger] p.field_violations@[i],
                    http_violations(*self)[i],
                ),
    {
        let violations = match self {
            HttpError::Signal(e) => copy_violations(&e.field_violations),
            _ => Vec::new(),
        };
        let message = match self {
            HttpError::Internal(_) => copy_str("internal server error"),
            _ => self.message(),
        };
        ProblemDetails {
            code: copy_str(self.code()),
            message,
            status: self.status(),
            request_id,
            field_violations: violations,
        }
    }
}

} // verus!
