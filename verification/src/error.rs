use vstd::prelude::*;
use crate::text::{nat_text, push_decimal};
use axum::http::status::InvalidStatusCode;
use axum::http::StatusCode;

verus! {

#[verifier::external_type_specification]
#[verifier::external_body]
pub struct ExStatusCode(axum::http::StatusCode);

#[verifier::external_type_specification]
#[verifier::external_body]
pub struct ExInvalidStatusCode(axum::http::status::InvalidStatusCode);

/// The HTTP status that `StatusCode::from_u16` builds from a code.
pub uninterp spec fn http_status(code: u16) -> StatusCode;

/// Trusted: `StatusCode::from_u16` of the `http` crate (re-exported by axum).
/// Its source accepts exactly the codes 100 to 999 and rejects every other
/// one; the status it builds depends on the code alone, which is all that
/// `http_status` names.
#[verifier::external_body]
fn status_from_u16(code: u16) -> (r: Result<StatusCode, InvalidStatusCode>)
    ensures
        (100 <= code <= 999) <==> r is Ok,
        r matches Ok(s) ==> s == http_status(code),
{
    StatusCode::from_u16(code)
}

/// The category of a failure, which decides the HTTP status and the
/// error type reported to the client.
#[derive(Debug, Clone, Copy, PartialEq, Eq, Structural)]
pub enum ErrorKind {
    InvalidRequest,
    Authentication,
    Permission,
    RateLimit,
    Overloaded,
    Upstream,
    Timeout,
    Internal,
}

/// The HTTP status code that answers a failure of the given kind.
pub open spec fn status_code_of(kind: ErrorKind) -> u16 {
    match kind {
        ErrorKind::InvalidRequest => 400,
        ErrorKind::Authentication => 401,
        ErrorKind::Permission => 403,
        ErrorKind::RateLimit => 429,
        ErrorKind::Overloaded => 503,
        ErrorKind::Timeout => 504,
        ErrorKind::Upstream => 502,
        ErrorKind::Internal => 500,
    }
}

/// The Anthropic error type reported for a failure of the given kind.
pub open spec fn anthropic_type_of(kind: ErrorKind) -> &'static str {
    match kind {
        ErrorKind::InvalidRequest => "invalid_request_error",
        ErrorKind::Authentication => "authentication_error",
        ErrorKind::Permission => "permission_error",
        ErrorKind::RateLimit => "rate_limit_error",
        ErrorKind::Overloaded => "overloaded_error",
        ErrorKind::Timeout => "api_error",
        ErrorKind::Upstream => "api_error",
        ErrorKind::Internal => "api_error",
    }
}

/// A failure of the proxy, with what the client is told about it.
#[derive(Debug)]
pub struct ProxyError {
    pub kind: ErrorKind,
    pub message: String,
    pub request_id: Option<String>,
    pub retry_after_seconds: Option<u64>,
    pub is_retryable: bool,
}

/// The mathematical value of a [`ProxyError`].
pub struct ProxyErrorView {
    pub kind: ErrorKind,
    pub message: Seq<char>,
    pub request_id: Option<Seq<char>>,
    pub retry_after_seconds: Option<u64>,
    pub is_retryable: bool,
}

/// The text of an optional string.
pub open spec fn opt_text(o: Option<String>) -> Option<Seq<char>> {
    match o {
        Some(s) => Some(s@),
        None => None,
    }
}

impl View for ProxyError {
    type V = ProxyErrorView;

    open spec fn view(&self) -> ProxyErrorView {
        ProxyErrorView {
            kind: self.kind,
            message: self.message@,
            request_id: opt_text(self.request_id),
            retry_after_seconds: self.retry_after_seconds,
            is_retryable: self.is_retryable,
        }
    }
}

/// The plain value of an error with no request id, no retry hint and no
/// retry permission.
pub open spec fn plain_error(kind: ErrorKind, message: Seq<char>) -> ProxyErrorView {
    ProxyErrorView {
        kind,
        message,
        request_id: None,
        retry_after_seconds: None,
        is_retryable: false,
    }
}

/// A copy of an optional string.
pub fn clone_opt_string(o: &Option<String>) -> (r: Option<String>)
    ensures
        r == *o,
{
    match o {
        Some(s) => Some(s.clone()),
        None => None,
    }
}

impl Clone for ProxyError {
    fn clone(&self) -> (r: Self)
        ensures
            r == *self,
    {
        ProxyError {
            kind: self.kind,
            message: self.message.clone(),
            request_id: clone_opt_string(&self.request_id),
            retry_after_seconds: self.retry_after_seconds,
            is_retryable: self.is_retryable,
        }
    }
}

/// The body of an error response: its type and its message.
pub struct ErrorBody {
    pub kind: &'static str,
    pub message: String,
}

/// An Anthropic-shaped error response body.
pub struct ErrorEnvelope {
    pub kind: &'static str,
    pub error: ErrorBody,
    pub request_id: Option<String>,
}

impl ProxyError {
    /// An error of the given kind, with no request id, no retry hint and
    /// not retryable.
    pub fn new(kind: ErrorKind, message: &str) -> (r: Self)
        ensures
            r@ == plain_error(kind, message@),
    {
        ProxyError {
            kind,
            message: message.to_owned(),
            request_id: None,
            retry_after_seconds: None,
            is_retryable: false,
        }
    }

    /// An error for a request that the proxy refuses as invalid.
    pub fn invalid(message: &str) -> (r: Self)
        ensures
            r@ == plain_error(ErrorKind::InvalidRequest, message@),
    {
        Self::new(ErrorKind::InvalidRequest, message)
    }

    /// The same error, tagged with the id of the request it answers.
    pub fn with_request_id(self, request_id: &str) -> (r: Self)
        ensures
            r@ == (ProxyErrorView { request_id: Some(request_id@), ..self@ }),
    {
        let mut this = self;
        this.request_id = Some(request_id.to_owned());
        this
    }

    /// The numeric HTTP status that answers this error.
    pub fn status_code(&self) -> (r: u16)
        ensures
            r == status_code_of(self.kind),
    {
        match self.kind {
            ErrorKind::InvalidRequest => 400,
            ErrorKind::Authentication => 401,
            ErrorKind::Permission => 403,
            ErrorKind::RateLimit => 429,
            ErrorKind::Overloaded => 503,
            ErrorKind::Timeout => 504,
            ErrorKind::Upstream => 502,
            ErrorKind::Internal => 500,
        }
    }

    /// The HTTP status that answers this error.
    pub fn status(&self) -> (r: StatusCode)
        ensures
            r == http_status(status_code_of(self.kind)),
    {
        let code = self.status_code();
        match status_from_u16(code) {
            Ok(status) => status,
            Err(_) => vstd::pervasive::unreached(),
        }
    }

    /// The Anthropic error type reported for this error.
    pub fn anthropic_type(&self) -> (r: &'static str)
        ensures
            r == anthropic_type_of(self.kind),
    {
        match self.kind {
            ErrorKind::InvalidRequest => "invalid_request_error",
            ErrorKind::Authentication => "authentication_error",
            ErrorKind::Permission => "permission_error",
            ErrorKind::RateLimit => "rate_limit_error",
            ErrorKind::Overloaded => "overloaded_error",
            ErrorKind::Timeout | ErrorKind::Upstream | ErrorKind::Internal => "api_error",
        }
    }

    /// Whether the failed request may be tried again at another target.
    pub fn retryable(&self) -> (r: bool)
        ensures
            r == self.is_retryable,
    {
        self.is_retryable
    }

    /// The same error, marked as retryable.
    pub fn with_retryable(self) -> (r: Self)
        ensures
            r@ == (ProxyErrorView { is_retryable: true, ..self@ }),
    {
        let mut this = self;
        this.is_retryable = true;
        this
    }

    /// The value of the `retry-after` header that goes with this error: the
    /// retry hint in decimal seconds, when there is one.
    pub fn retry_after_value(&self) -> (r: Option<String>)
        ensures
            match self.retry_after_seconds {
                Some(seconds) => r matches Some(v) && v@ == nat_text(seconds as nat),
                None => r is None,
            },
    {
        match self.retry_after_seconds {
            Some(seconds) => {
                let mut value = String::new();
                push_decimal(&mut value, seconds);
                Some(value)
            },
            None => None,
        }
    }

    /// The body of the response that reports this error to the client.
    pub fn envelope(&self) -> (r: ErrorEnvelope)
        ensures
            r.kind == "error",
            r.error.kind == anthropic_type_of(self.kind),
            r.error.message@ == self.message@,
            opt_text(r.request_id) == opt_text(self.request_id),
    {
        ErrorEnvelope {
            kind: "error",
            error: ErrorBody { kind: self.anthropic_type(), message: self.message.clone() },
            request_id: clone_opt_string(&self.request_id),
        }
    }
}


/// Law: refused requests are answered with the status their kind calls
/// for: invalid requests with 400, failed authentication with 401 and
/// `authentication_error`, refused permission with 403 and
/// `permission_error`, rate limits with 429.
pub proof fn lemma_client_failure_statuses(e: ProxyErrorView)
    ensures
        e.kind == ErrorKind::InvalidRequest ==> status_code_of(e.kind) == 400
            && anthropic_type_of(e.kind) == "invalid_request_error",
        e.kind == ErrorKind::Authentication ==> status_code_of(e.kind) == 401
            && anthropic_type_of(e.kind) == "authentication_error",
        e.kind == ErrorKind::Permission ==> status_code_of(e.kind) == 403
            && anthropic_type_of(e.kind) == "permission_error",
        e.kind == ErrorKind::RateLimit ==> status_code_of(e.kind) == 429
            && anthropic_type_of(e.kind) == "rate_limit_error",
{
}

} // verus!
