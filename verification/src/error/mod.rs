//! The library's error model: the error values every operation reports,
//! Ably error codes and the categories errors fall into.

pub mod ably_codes;
pub mod advanced;

pub use ably_codes::{AblyErrorCode, parse_ably_error, http_to_ably_code};
pub use advanced::{ErrorRecovery, ErrorAggregator, ErrorRecord, RecoveryStrategy, ErrorMetrics};

use crate::text::{append, owned, seq_contains, str_contains, u64_to_string, decimal};
use std::time::Duration;
use vstd::prelude::*;

verus! {

/// Text that an error message can be made from: a string slice or an owned
/// string; the message keeps exactly its characters.
pub trait IntoText {
    /// The characters the message will hold.
    spec fn text_view(&self) -> Seq<char>;

    /// Converts into an owned string with the same characters.
    fn into_text(self) -> (s: String)
        ensures
            s@ == self.text_view(),
    ;
}

impl<'a> IntoText for &'a str {
    open spec fn text_view(&self) -> Seq<char> {
        (*self)@
    }

    fn into_text(self) -> (s: String) {
        owned(self)
    }
}

impl IntoText for String {
    open spec fn text_view(&self) -> Seq<char> {
        self@
    }

    fn into_text(self) -> (s: String) {
        self
    }
}

/// Result of a library operation.
pub type AblyResult<T> = Result<T, AblyError>;

/// An error reported by the library.
#[derive(Debug)]
#[allow(inconsistent_fields)]
pub enum AblyError {
    Network { message: String, retryable: bool },
    Authentication { message: String, code: Option<ErrorCode> },
    RateLimited { message: String, retry_after: Option<Duration> },
    Api { code: u16, message: String },
    Decode { message: String },
    Encryption { message: String },
    CircuitBreakerOpen { message: String },
    Forbidden { message: String },
    NotFound { message: String },
    Internal { message: String },
    BadRequest { message: String },
}

/// An error code as the REST and realtime APIs report it.
#[derive(Debug, Clone, Copy, PartialEq, Eq, Structural)]
pub enum ErrorCode {
    Unauthorized,
    Forbidden,
    NotFound,
    RateLimit,
    Internal,
    Custom(u16),
}

/// The category an error falls into, by which recovery is chosen.
#[derive(Debug, Clone, Copy, PartialEq, Eq, Hash, Structural)]
pub enum ErrorCategory {
    Network,
    Auth,
    RateLimit,
    Decode,
    BadRequest,
    Forbidden,
    NotFound,
    Internal,
    Unknown,
}

/// The error code for a numeric code, as `ErrorCode::from_u16` maps it.
pub open spec fn spec_error_code_from_u16(code: u16) -> ErrorCode {
    if code == 401 || (40100 <= code <= 40199) {
        ErrorCode::Unauthorized
    } else if code == 403 || (40300 <= code <= 40399) {
        ErrorCode::Forbidden
    } else if code == 404 || (40400 <= code <= 40499) {
        ErrorCode::NotFound
    } else if code == 429 || (42900 <= code <= 42999) {
        ErrorCode::RateLimit
    } else if code == 500 || (50000 <= code <= 50099) {
        ErrorCode::Internal
    } else {
        ErrorCode::Custom(code)
    }
}

/// The numeric code of an error code, as `ErrorCode::as_u16` maps it.
pub open spec fn spec_error_code_as_u16(code: ErrorCode) -> u16 {
    match code {
        ErrorCode::Unauthorized => 40100,
        ErrorCode::Forbidden => 40300,
        ErrorCode::NotFound => 40400,
        ErrorCode::RateLimit => 42900,
        ErrorCode::Internal => 50000,
        ErrorCode::Custom(c) => c,
    }
}

/// The category of a numeric Ably error code.
pub open spec fn spec_category_from_code(code: u16) -> ErrorCategory {
    if 40000 <= code <= 40099 {
        ErrorCategory::BadRequest
    } else if 40100 <= code <= 40199 {
        ErrorCategory::Auth
    } else if 40300 <= code <= 40399 {
        ErrorCategory::Forbidden
    } else if 40400 <= code <= 40499 {
        ErrorCategory::NotFound
    } else if 42900 <= code <= 42999 {
        ErrorCategory::RateLimit
    } else if 50000 <= code <= 50099 {
        ErrorCategory::Internal
    } else {
        ErrorCategory::Unknown
    }
}

impl ErrorCode {
    /// Maps a numeric code (HTTP status or Ably code) to an error code.
    pub fn from_u16(code: u16) -> (r: ErrorCode)
        ensures
            r == spec_error_code_from_u16(code),
    {
        if code == 401 || (40100 <= code && code <= 40199) {
            ErrorCode::Unauthorized
        } else if code == 403 || (40300 <= code && code <= 40399) {
            ErrorCode::Forbidden
        } else if code == 404 || (40400 <= code && code <= 40499) {
            ErrorCode::NotFound
        } else if code == 429 || (42900 <= code && code <= 42999) {
            ErrorCode::RateLimit
        } else if code == 500 || (50000 <= code && code <= 50099) {
            ErrorCode::Internal
        } else {
            ErrorCode::Custom(code)
        }
    }

    /// The Ably numeric code of this error code.
    pub fn as_u16(&self) -> (r: u16)
        ensures
            r == spec_error_code_as_u16(*self),
    {
        match self {
            ErrorCode::Unauthorized => 40100,
            ErrorCode::Forbidden => 40300,
            ErrorCode::NotFound => 40400,
            ErrorCode::RateLimit => 42900,
            ErrorCode::Internal => 50000,
            ErrorCode::Custom(code) => *code,
        }
    }
}

impl ErrorCategory {
    /// The category of a numeric Ably error code.
    pub fn from_code(code: u16) -> (r: ErrorCategory)
        ensures
            r == spec_category_from_code(code),
    {
        if 40000 <= code && code <= 40099 {
            ErrorCategory::BadRequest
        } else if 40100 <= code && code <= 40199 {
            ErrorCategory::Auth
        } else if 40300 <= code && code <= 40399 {
            ErrorCategory::Forbidden
        } else if 40400 <= code && code <= 40499 {
            ErrorCategory::NotFound
        } else if 42900 <= code && code <= 42999 {
            ErrorCategory::RateLimit
        } else if 50000 <= code && code <= 50099 {
            ErrorCategory::Internal
        } else {
            ErrorCategory::Unknown
        }
    }
}

/// The error that an Ably numeric code with a message stands for, as
/// `AblyError::from_ably_code` builds it; `msg` is the message's text.
pub open spec fn spec_from_ably_code_matches(e: AblyError, code: u16, msg: Seq<char>) -> bool {
    if 40000 <= code <= 40099 {
        e matches AblyError::BadRequest { message } && message@ == msg
    } else if 40100 <= code <= 40199 {
        e matches AblyError::Authentication { message, code: c } && message@ == msg && c == Some(
            spec_error_code_from_u16(code),
        )
    } else if 40300 <= code <= 40399 {
        e matches AblyError::Forbidden { message } && message@ == msg
    } else if 40400 <= code <= 40499 {
        e matches AblyError::NotFound { message } && message@ == msg
    } else if 42900 <= code <= 42999 {
        e matches AblyError::RateLimited { message, retry_after } && message@ == msg
            && retry_after is None
    } else if 50000 <= code <= 50099 {
        e matches AblyError::Internal { message } && message@ == msg
    } else {
        e matches AblyError::Api { code: c, message } && c == code && message@ == msg
    }
}

impl AblyError {
    /// The message every variant carries.
    pub open spec fn spec_message(&self) -> Seq<char> {
        match self {
            AblyError::Network { message, .. } => message@,
            AblyError::Authentication { message, .. } => message@,
            AblyError::RateLimited { message, .. } => message@,
            AblyError::Api { message, .. } => message@,
            AblyError::Decode { message } => message@,
            AblyError::Encryption { message } => message@,
            AblyError::CircuitBreakerOpen { message } => message@,
            AblyError::Forbidden { message } => message@,
            AblyError::NotFound { message } => message@,
            AblyError::Internal { message } => message@,
            AblyError::BadRequest { message } => message@,
        }
    }

    /// The category of the error.
    pub open spec fn spec_category(&self) -> ErrorCategory {
        match self {
            AblyError::Network { .. } => ErrorCategory::Network,
            AblyError::Authentication { .. } => ErrorCategory::Auth,
            AblyError::RateLimited { .. } => ErrorCategory::RateLimit,
            AblyError::Decode { .. } => ErrorCategory::Decode,
            AblyError::Forbidden { .. } => ErrorCategory::Forbidden,
            AblyError::NotFound { .. } => ErrorCategory::NotFound,
            AblyError::Internal { .. } => ErrorCategory::Internal,
            AblyError::BadRequest { .. } => ErrorCategory::BadRequest,
            AblyError::Api { code, .. } => spec_category_from_code(*code),
            _ => ErrorCategory::Unknown,
        }
    }

    /// Whether the error may succeed when retried.
    pub open spec fn spec_is_retryable(&self) -> bool {
        match self {
            AblyError::Network { retryable, .. } => *retryable,
            AblyError::RateLimited { .. } => true,
            AblyError::Internal { .. } => true,
            _ => false,
        }
    }

    /// The human-readable rendering of the error.
    pub open spec fn spec_display(&self) -> Seq<char> {
        match self {
            AblyError::Network { message, .. } => "Network error: "@ + message@,
            AblyError::Authentication { message, .. } => "Authentication failed: "@ + message@,
            AblyError::RateLimited { message, .. } => "Rate limited: "@ + message@,
            AblyError::Api { code, message } => "API error "@ + decimal(*code as nat) + ": "@
                + message@,
            AblyError::Decode { message } => "Decode error: "@ + message@,
            AblyError::Encryption { message } => "Encryption error: "@ + message@,
            AblyError::CircuitBreakerOpen { message } => "Circuit breaker open: "@ + message@,
            AblyError::Forbidden { message } => "Forbidden: "@ + message@,
            AblyError::NotFound { message } => "Not found: "@ + message@,
            AblyError::Internal { message } => "Internal server error: "@ + message@,
            AblyError::BadRequest { message } => "Bad request: "@ + message@,
        }
    }

    /// A retryable network error for a timed-out operation.
    pub fn timeout<M: IntoText>(message: M) -> (e: AblyError)
        ensures
            e matches AblyError::Network { message: m, retryable } && m@ == message.text_view()
                && retryable,
    {
        AblyError::Network { message: message.into_text(), retryable: true }
    }

    /// A retryable network error for a failed connection.
    pub fn connection_failed<M: IntoText>(message: M) -> (e: AblyError)
        ensures
            e matches AblyError::Network { message: m, retryable } && m@ == message.text_view()
                && retryable,
    {
        AblyError::Network { message: message.into_text(), retryable: true }
    }

    /// A retryable network error.
    pub fn network<M: IntoText>(message: M) -> (e: AblyError)
        ensures
            e matches AblyError::Network { message: m, retryable } && m@ == message.text_view()
                && retryable,
    {
        AblyError::Network { message: message.into_text(), retryable: true }
    }

    /// A decode error for input that could not be parsed.
    pub fn parse<M: IntoText>(message: M) -> (e: AblyError)
        ensures
            e matches AblyError::Decode { message: m } && m@ == message.text_view(),
    {
        AblyError::Decode { message: message.into_text() }
    }

    /// A decode error.
    pub fn decode<M: IntoText>(message: M) -> (e: AblyError)
        ensures
            e matches AblyError::Decode { message: m } && m@ == message.text_view(),
    {
        AblyError::Decode { message: message.into_text() }
    }

    /// A decode error for data that could not be encoded.
    pub fn encoding<M: IntoText>(message: M) -> (e: AblyError)
        ensures
            e matches AblyError::Decode { message: m } && m@ == message.text_view(),
    {
        AblyError::Decode { message: message.into_text() }
    }

    /// A decode error for data that could not be decoded.
    pub fn decoding<M: IntoText>(message: M) -> (e: AblyError)
        ensures
            e matches AblyError::Decode { message: m } && m@ == message.text_view(),
    {
        AblyError::Decode { message: message.into_text() }
    }

    /// An encryption error.
    pub fn encryption<M: IntoText>(message: M) -> (e: AblyError)
        ensures
            e matches AblyError::Encryption { message: m } && m@ == message.text_view(),
    {
        AblyError::Encryption { message: message.into_text() }
    }

    /// A bad-request error for an invalid request.
    pub fn invalid_request<M: IntoText>(message: M) -> (e: AblyError)
        ensures
            e matches AblyError::BadRequest { message: m } && m@ == message.text_view(),
    {
        AblyError::BadRequest { message: message.into_text() }
    }

    /// An API error with the given code.
    pub fn api<M: IntoText>(code: u16, message: M) -> (e: AblyError)
        ensures
            e matches AblyError::Api { code: c, message: m } && c == code && m@
                == message.text_view(),
    {
        AblyError::Api { code, message: message.into_text() }
    }

    /// An internal error for an unexpected condition.
    pub fn unexpected<M: IntoText>(message: M) -> (e: AblyError)
        ensures
            e matches AblyError::Internal { message: m } && m@ == message.text_view(),
    {
        AblyError::Internal { message: message.into_text() }
    }

    /// The error code of the error, where it has one.
    pub fn code(&self) -> (r: Option<ErrorCode>)
        ensures
            r == match self {
                AblyError::Authentication { code, .. } => *code,
                AblyError::Api { code, .. } => Some(spec_error_code_from_u16(*code)),
                AblyError::RateLimited { .. } => Some(ErrorCode::RateLimit),
                AblyError::Forbidden { .. } => Some(ErrorCode::Forbidden),
                AblyError::NotFound { .. } => Some(ErrorCode::NotFound),
                AblyError::Internal { .. } => Some(ErrorCode::Internal),
                AblyError::BadRequest { .. } => Some(ErrorCode::Custom(40000)),
                _ => None,
            },
    {
        match self {
            AblyError::Authentication { code, .. } => *code,
            AblyError::Api { code, .. } => Some(ErrorCode::from_u16(*code)),
            AblyError::RateLimited { .. } => Some(ErrorCode::RateLimit),
            AblyError::Forbidden { .. } => Some(ErrorCode::Forbidden),
            AblyError::NotFound { .. } => Some(ErrorCode::NotFound),
            AblyError::Internal { .. } => Some(ErrorCode::Internal),
            AblyError::BadRequest { .. } => Some(ErrorCode::Custom(40000)),
            _ => None,
        }
    }

    /// The category of the error.
    pub fn category(&self) -> (r: ErrorCategory)
        ensures
            r == self.spec_category(),
    {
        match self {
            AblyError::Network { .. } => ErrorCategory::Network,
            AblyError::Authentication { .. } => ErrorCategory::Auth,
            AblyError::RateLimited { .. } => ErrorCategory::RateLimit,
            AblyError::Decode { .. } => ErrorCategory::Decode,
            AblyError::Forbidden { .. } => ErrorCategory::Forbidden,
            AblyError::NotFound { .. } => ErrorCategory::NotFound,
            AblyError::Internal { .. } => ErrorCategory::Internal,
            AblyError::BadRequest { .. } => ErrorCategory::BadRequest,
            AblyError::Api { code, .. } => ErrorCategory::from_code(*code),
            _ => ErrorCategory::Unknown,
        }
    }

    /// Whether the error is a network error whose message mentions a timeout.
    pub fn is_timeout(&self) -> (r: bool)
        ensures
            r == (self matches AblyError::Network { message, .. } && (seq_contains(
                message@,
                "timeout"@,
            ) || seq_contains(message@, "Timeout"@))),
    {
        match self {
            AblyError::Network { message, .. } => str_contains(message.as_str(), "timeout")
                || str_contains(message.as_str(), "Timeout"),
            _ => false,
        }
    }

    /// Whether the error may succeed when retried.
    pub fn is_retryable(&self) -> (r: bool)
        ensures
            r == self.spec_is_retryable(),
    {
        match self {
            AblyError::Network { retryable, .. } => *retryable,
            AblyError::RateLimited { .. } => true,
            AblyError::Internal { .. } => true,
            _ => false,
        }
    }

    /// The message the error carries.
    pub fn context(&self) -> (r: String)
        ensures
            r@ == self.spec_message(),
    {
        match self {
            AblyError::Network { message, .. } => message.clone(),
            AblyError::Authentication { message, .. } => message.clone(),
            AblyError::RateLimited { message, .. } => message.clone(),
            AblyError::Api { message, .. } => message.clone(),
            AblyError::Decode { message } => message.clone(),
            AblyError::Encryption { message } => message.clone(),
            AblyError::CircuitBreakerOpen { message } => message.clone(),
            AblyError::Forbidden { message } => message.clone(),
            AblyError::NotFound { message } => message.clone(),
            AblyError::Internal { message } => message.clone(),
            AblyError::BadRequest { message } => message.clone(),
        }
    }

    /// A note on backtrace capture, as debug builds report it.
    pub fn backtrace(&self) -> (r: Option<String>)
        ensures
            r matches Some(s) && s@ == "Backtrace capture enabled in debug mode"@,
    {
        Some(owned("Backtrace capture enabled in debug mode"))
    }

    /// The human-readable rendering of the error (its `Display` text).
    pub fn to_display_string(&self) -> (r: String)
        ensures
            r@ == self.spec_display(),
    {
        let (prefix, message): (&str, &String) = match self {
            AblyError::Network { message, .. } => ("Network error: ", message),
            AblyError::Authentication { message, .. } => ("Authentication failed: ", message),
            AblyError::RateLimited { message, .. } => ("Rate limited: ", message),
            AblyError::Api { code, message } => {
                let mut s = owned("API error ");
                let digits = u64_to_string(*code as u64);
                append(&mut s, digits.as_str());
                append(&mut s, ": ");
                append(&mut s, message.as_str());
                return s;
            },
            AblyError::Decode { message } => ("Decode error: ", message),
            AblyError::Encryption { message } => ("Encryption error: ", message),
            AblyError::CircuitBreakerOpen { message } => ("Circuit breaker open: ", message),
            AblyError::Forbidden { message } => ("Forbidden: ", message),
            AblyError::NotFound { message } => ("Not found: ", message),
            AblyError::Internal { message } => ("Internal server error: ", message),
            AblyError::BadRequest { message } => ("Bad request: ", message),
        };
        let mut s = owned(prefix);
        append(&mut s, message.as_str());
        s
    }

    /// The error an Ably numeric code with a message stands for.
    pub fn from_ably_code(code: u16, message: &str) -> (e: AblyError)
        ensures
            spec_from_ably_code_matches(e, code, message@),
    {
        if 40000 <= code && code <= 40099 {
            AblyError::BadRequest { message: owned(message) }
        } else if 40100 <= code && code <= 40199 {
            AblyError::Authentication {
                message: owned(message),
                code: Some(ErrorCode::from_u16(code)),
            }
        } else if 40300 <= code && code <= 40399 {
            AblyError::Forbidden { message: owned(message) }
        } else if 40400 <= code && code <= 40499 {
            AblyError::NotFound { message: owned(message) }
        } else if 42900 <= code && code <= 42999 {
            AblyError::RateLimited { message: owned(message), retry_after: None }
        } else if 50000 <= code && code <= 50099 {
            AblyError::Internal { message: owned(message) }
        } else {
            AblyError::Api { code, message: owned(message) }
        }
    }
}

/// An error made from an Ably code falls in the category of that code, and
/// its code maps back to it, whenever the code lies in one of the Ably
/// ranges (40000-40099, 40100-40199, 40300-40399, 40400-40499, 42900-42999,
/// 50000-50099); outside them it is an API error of category `Unknown`.
pub proof fn law_from_ably_code_category(e: AblyError, code: u16, msg: Seq<char>)
    requires
        spec_from_ably_code_matches(e, code, msg),
    ensures
        e.spec_category() == spec_category_from_code(code),
        e.spec_message() == msg,
{
}

/// A named error code's numeric value maps back to the same error code; a
/// custom code maps back to itself exactly when its number lies outside the
/// named ranges.
pub proof fn law_error_code_roundtrip(c: ErrorCode)
    ensures
        c !is Custom ==> spec_error_code_from_u16(spec_error_code_as_u16(c)) == c,
        c matches ErrorCode::Custom(n) ==> (spec_error_code_from_u16(n) == c
            <==> spec_error_code_from_u16(n) is Custom),
{
}

} // verus!
