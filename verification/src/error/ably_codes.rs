//! The complete set of Ably protocol error codes, their numeric values,
//! categories and default messages, and the mapping of HTTP error responses
//! to errors.

use super::{AblyError, ErrorCategory, spec_category_from_code, spec_from_ably_code_matches};
use vstd::prelude::*;

verus! {

/// An Ably protocol error code.
#[derive(Debug, Clone, Copy, PartialEq, Eq, Structural)]
pub enum AblyErrorCode {
    BadRequest,
    InvalidRequestBody,
    InvalidParameterName,
    InvalidParameterValue,
    InvalidHeader,
    InvalidCredential,
    InvalidConnectionId,
    InvalidMessageId,
    InvalidContentLength,
    MaxMessageLengthExceeded,
    InvalidChannelName,
    Unauthorized,
    InvalidCredentials,
    IncompatibleCredentials,
    InvalidUseOfBasicAuthOverHttp,
    TokenExpired,
    TokenRevoked,
    Forbidden,
    AccountDisabled,
    AccountRestrictedConnectionLimitsExceeded,
    AccountRestrictedMessageLimitsExceeded,
    AccountRestrictedConnectionRateLimitExceeded,
    AccountBlocked,
    NotFound,
    ResourceNotFound,
    MethodNotAllowed,
    RequestTimeout,
    ConnectionTimeout,
    TooManyRequests,
    RateLimitExceeded,
    InternalServerError,
    InternalChannelError,
    InternalConnectionError,
    TimeoutError,
    RequestFailed,
}

/// The numeric value of an Ably error code.
pub open spec fn spec_code_value(c: AblyErrorCode) -> u16 {
    match c {
        AblyErrorCode::BadRequest => 40000,
        AblyErrorCode::InvalidRequestBody => 40001,
        AblyErrorCode::InvalidParameterName => 40002,
        AblyErrorCode::InvalidParameterValue => 40003,
        AblyErrorCode::InvalidHeader => 40004,
        AblyErrorCode::InvalidCredential => 40005,
        AblyErrorCode::InvalidConnectionId => 40006,
        AblyErrorCode::InvalidMessageId => 40007,
        AblyErrorCode::InvalidContentLength => 40008,
        AblyErrorCode::MaxMessageLengthExceeded => 40009,
        AblyErrorCode::InvalidChannelName => 40010,
        AblyErrorCode::Unauthorized => 40100,
        AblyErrorCode::InvalidCredentials => 40101,
        AblyErrorCode::IncompatibleCredentials => 40102,
        AblyErrorCode::InvalidUseOfBasicAuthOverHttp => 40103,
        AblyErrorCode::TokenExpired => 40104,
        AblyErrorCode::TokenRevoked => 40105,
        AblyErrorCode::Forbidden => 40300,
        AblyErrorCode::AccountDisabled => 40301,
        AblyErrorCode::AccountRestrictedConnectionLimitsExceeded => 40302,
        AblyErrorCode::AccountRestrictedMessageLimitsExceeded => 40303,
        AblyErrorCode::AccountRestrictedConnectionRateLimitExceeded => 40304,
        AblyErrorCode::AccountBlocked => 40305,
        AblyErrorCode::NotFound => 40400,
        AblyErrorCode::ResourceNotFound => 40401,
        AblyErrorCode::MethodNotAllowed => 40500,
        AblyErrorCode::RequestTimeout => 40800,
        AblyErrorCode::ConnectionTimeout => 40801,
        AblyErrorCode::TooManyRequests => 42900,
        AblyErrorCode::RateLimitExceeded => 42901,
        AblyErrorCode::InternalServerError => 50000,
        AblyErrorCode::InternalChannelError => 50001,
        AblyErrorCode::InternalConnectionError => 50002,
        AblyErrorCode::TimeoutError => 50003,
        AblyErrorCode::RequestFailed => 50004,
    }
}

/// The error code with the given numeric value, if there is one.
pub open spec fn spec_code_from_value(v: u16) -> Option<AblyErrorCode> {
    if v == 40000 {
        Some(AblyErrorCode::BadRequest)
    } else if v == 40001 {
        Some(AblyErrorCode::InvalidRequestBody)
    } else if v == 40002 {
        Some(AblyErrorCode::InvalidParameterName)
    } else if v == 40003 {
        Some(AblyErrorCode::InvalidParameterValue)
    } else if v == 40004 {
        Some(AblyErrorCode::InvalidHeader)
    } else if v == 40005 {
        Some(AblyErrorCode::InvalidCredential)
    } else if v == 40006 {
        Some(AblyErrorCode::InvalidConnectionId)
    } else if v == 40007 {
        Some(AblyErrorCode::InvalidMessageId)
    } else if v == 40008 {
        Some(AblyErrorCode::InvalidContentLength)
    } else if v == 40009 {
        Some(AblyErrorCode::MaxMessageLengthExceeded)
    } else if v == 40010 {
        Some(AblyErrorCode::InvalidChannelName)
    } else if v == 40100 {
        Some(AblyErrorCode::Unauthorized)
    } else if v == 40101 {
        Some(AblyErrorCode::InvalidCredentials)
    } else if v == 40102 {
        Some(AblyErrorCode::IncompatibleCredentials)
    } else if v == 40103 {
        Some(AblyErrorCode::InvalidUseOfBasicAuthOverHttp)
    } else if v == 40104 {
        Some(AblyErrorCode::TokenExpired)
    } else if v == 40105 {
        Some(AblyErrorCode::TokenRevoked)
    } else if v == 40300 {
        Some(AblyErrorCode::Forbidden)
    } else if v == 40301 {
        Some(AblyErrorCode::AccountDisabled)
    } else if v == 40302 {
        Some(AblyErrorCode::AccountRestrictedConnectionLimitsExceeded)
    } else if v == 40303 {
        Some(AblyErrorCode::AccountRestrictedMessageLimitsExceeded)
    } else if v == 40304 {
        Some(AblyErrorCode::AccountRestrictedConnectionRateLimitExceeded)
    } else if v == 40305 {
        Some(AblyErrorCode::AccountBlocked)
    } else if v == 40400 {
        Some(AblyErrorCode::NotFound)
    } else if v == 40401 {
        Some(AblyErrorCode::ResourceNotFound)
    } else if v == 40500 {
        Some(AblyErrorCode::MethodNotAllowed)
    } else if v == 40800 {
        Some(AblyErrorCode::RequestTimeout)
    } else if v == 40801 {
        Some(AblyErrorCode::ConnectionTimeout)
    } else if v == 42900 {
        Some(AblyErrorCode::TooManyRequests)
    } else if v == 42901 {
        Some(AblyErrorCode::RateLimitExceeded)
    } else if v == 50000 {
        Some(AblyErrorCode::InternalServerError)
    } else if v == 50001 {
        Some(AblyErrorCode::InternalChannelError)
    } else if v == 50002 {
        Some(AblyErrorCode::InternalConnectionError)
    } else if v == 50003 {
        Some(AblyErrorCode::TimeoutError)
    } else if v == 50004 {
        Some(AblyErrorCode::RequestFailed)
    } else {
        None
    }
}

/// The default message of an Ably error code.
pub open spec fn spec_default_message(c: AblyErrorCode) -> Seq<char> {
    match c {
        AblyErrorCode::BadRequest => "Bad request"@,
        AblyErrorCode::InvalidRequestBody => "Invalid request body"@,
        AblyErrorCode::InvalidParameterName => "Invalid parameter name"@,
        AblyErrorCode::InvalidParameterValue => "Invalid parameter value"@,
        AblyErrorCode::InvalidHeader => "Invalid header"@,
        AblyErrorCode::InvalidCredential => "Invalid credential"@,
        AblyErrorCode::InvalidConnectionId => "Invalid connection ID"@,
        AblyErrorCode::InvalidMessageId => "Invalid message ID"@,
        AblyErrorCode::InvalidContentLength => "Invalid content length"@,
        AblyErrorCode::MaxMessageLengthExceeded => "Maximum message length exceeded"@,
        AblyErrorCode::InvalidChannelName => "Invalid channel name"@,
        AblyErrorCode::Unauthorized => "Unauthorized"@,
        AblyErrorCode::InvalidCredentials => "Invalid credentials"@,
        AblyErrorCode::IncompatibleCredentials => "Incompatible credentials"@,
        AblyErrorCode::InvalidUseOfBasicAuthOverHttp => "Invalid use of basic auth over non-TLS connection"@,
        AblyErrorCode::TokenExpired => "Token expired"@,
        AblyErrorCode::TokenRevoked => "Token revoked"@,
        AblyErrorCode::Forbidden => "Forbidden"@,
        AblyErrorCode::AccountDisabled => "Account disabled"@,
        AblyErrorCode::AccountRestrictedConnectionLimitsExceeded => "Account connection limits exceeded"@,
        AblyErrorCode::AccountRestrictedMessageLimitsExceeded => "Account message limits exceeded"@,
        AblyErrorCode::AccountRestrictedConnectionRateLimitExceeded => "Account connection rate limit exceeded"@,
        AblyErrorCode::AccountBlocked => "Account blocked"@,
        AblyErrorCode::NotFound => "Not found"@,
        AblyErrorCode::ResourceNotFound => "Resource not found"@,
        AblyErrorCode::MethodNotAllowed => "Method not allowed"@,
        AblyErrorCode::RequestTimeout => "Request timeout"@,
        AblyErrorCode::ConnectionTimeout => "Connection timeout"@,
        AblyErrorCode::TooManyRequests => "Too many requests"@,
        AblyErrorCode::RateLimitExceeded => "Rate limit exceeded"@,
        AblyErrorCode::InternalServerError => "Internal server error"@,
        AblyErrorCode::InternalChannelError => "Internal channel error"@,
        AblyErrorCode::InternalConnectionError => "Internal connection error"@,
        AblyErrorCode::TimeoutError => "Timeout error"@,
        AblyErrorCode::RequestFailed => "Request failed"@,
    }
}

/// Whether an operation failing with this code may succeed when retried.
pub open spec fn spec_code_retryable(c: AblyErrorCode) -> bool {
    match c {
        AblyErrorCode::RequestTimeout => true,
        AblyErrorCode::ConnectionTimeout => true,
        AblyErrorCode::TooManyRequests => true,
        AblyErrorCode::RateLimitExceeded => true,
        AblyErrorCode::InternalServerError => true,
        AblyErrorCode::InternalChannelError => true,
        AblyErrorCode::InternalConnectionError => true,
        AblyErrorCode::TimeoutError => true,
        AblyErrorCode::RequestFailed => true,
        _ => false,
    }
}

/// The category of an Ably error code, by the range its value lies in.
pub open spec fn spec_code_category(v: u16) -> ErrorCategory {
    if 40000 <= v <= 40099 {
        ErrorCategory::BadRequest
    } else if 40100 <= v <= 40199 {
        ErrorCategory::Auth
    } else if 40300 <= v <= 40399 {
        ErrorCategory::Forbidden
    } else if 40400 <= v <= 40499 {
        ErrorCategory::NotFound
    } else if 40500 <= v <= 40599 {
        ErrorCategory::BadRequest
    } else if 40800 <= v <= 40899 {
        ErrorCategory::Network
    } else if 42900 <= v <= 42999 {
        ErrorCategory::RateLimit
    } else if 50000 <= v <= 50099 {
        ErrorCategory::Internal
    } else {
        ErrorCategory::Unknown
    }
}

/// The Ably error code an HTTP status maps to.
pub open spec fn spec_http_to_ably_code(status: u16) -> AblyErrorCode {
    if status == 400 {
        AblyErrorCode::BadRequest
    } else if status == 401 {
        AblyErrorCode::Unauthorized
    } else if status == 403 {
        AblyErrorCode::Forbidden
    } else if status == 404 {
        AblyErrorCode::NotFound
    } else if status == 405 {
        AblyErrorCode::MethodNotAllowed
    } else if status == 408 {
        AblyErrorCode::RequestTimeout
    } else if status == 429 {
        AblyErrorCode::TooManyRequests
    } else if status == 500 {
        AblyErrorCode::InternalServerError
    } else if status == 502 || status == 503 || status == 504 {
        AblyErrorCode::RequestFailed
    } else {
        AblyErrorCode::BadRequest
    }
}

impl AblyErrorCode {
    /// The numeric value of the code.
    pub fn to_u16(self) -> (r: u16)
        ensures
            r == spec_code_value(self),
    {
        match self {
            AblyErrorCode::BadRequest => 40000,
            AblyErrorCode::InvalidRequestBody => 40001,
            AblyErrorCode::InvalidParameterName => 40002,
            AblyErrorCode::InvalidParameterValue => 40003,
            AblyErrorCode::InvalidHeader => 40004,
            AblyErrorCode::InvalidCredential => 40005,
            AblyErrorCode::InvalidConnectionId => 40006,
            AblyErrorCode::InvalidMessageId => 40007,
            AblyErrorCode::InvalidContentLength => 40008,
            AblyErrorCode::MaxMessageLengthExceeded => 40009,
            AblyErrorCode::InvalidChannelName => 40010,
            AblyErrorCode::Unauthorized => 40100,
            AblyErrorCode::InvalidCredentials => 40101,
            AblyErrorCode::IncompatibleCredentials => 40102,
            AblyErrorCode::InvalidUseOfBasicAuthOverHttp => 40103,
            AblyErrorCode::TokenExpired => 40104,
            AblyErrorCode::TokenRevoked => 40105,
            AblyErrorCode::Forbidden => 40300,
            AblyErrorCode::AccountDisabled => 40301,
            AblyErrorCode::AccountRestrictedConnectionLimitsExceeded => 40302,
            AblyErrorCode::AccountRestrictedMessageLimitsExceeded => 40303,
            AblyErrorCode::AccountRestrictedConnectionRateLimitExceeded => 40304,
            AblyErrorCode::AccountBlocked => 40305,
            AblyErrorCode::NotFound => 40400,
            AblyErrorCode::ResourceNotFound => 40401,
            AblyErrorCode::MethodNotAllowed => 40500,
            AblyErrorCode::RequestTimeout => 40800,
            AblyErrorCode::ConnectionTimeout => 40801,
            AblyErrorCode::TooManyRequests => 42900,
            AblyErrorCode::RateLimitExceeded => 42901,
            AblyErrorCode::InternalServerError => 50000,
            AblyErrorCode::InternalChannelError => 50001,
            AblyErrorCode::InternalConnectionError => 50002,
            AblyErrorCode::TimeoutError => 50003,
            AblyErrorCode::RequestFailed => 50004,
        }
    }

    /// The code with the given numeric value, if there is one.
    pub fn from_u16(code: u16) -> (r: Option<AblyErrorCode>)
        ensures
            r == spec_code_from_value(code),
    {
        if code == 40000 {
            Some(AblyErrorCode::BadRequest)
        } else if code == 40001 {
            Some(AblyErrorCode::InvalidRequestBody)
        } else if code == 40002 {
            Some(AblyErrorCode::InvalidParameterName)
        } else if code == 40003 {
            Some(AblyErrorCode::InvalidParameterValue)
        } else if code == 40004 {
            Some(AblyErrorCode::InvalidHeader)
        } else if code == 40005 {
            Some(AblyErrorCode::InvalidCredential)
        } else if code == 40006 {
            Some(AblyErrorCode::InvalidConnectionId)
        } else if code == 40007 {
            Some(AblyErrorCode::InvalidMessageId)
        } else if code == 40008 {
            Some(AblyErrorCode::InvalidContentLength)
        } else if code == 40009 {
            Some(AblyErrorCode::MaxMessageLengthExceeded)
        } else if code == 40010 {
            Some(AblyErrorCode::InvalidChannelName)
        } else if code == 40100 {
            Some(AblyErrorCode::Unauthorized)
        } else if code == 40101 {
            Some(AblyErrorCode::InvalidCredentials)
        } else if code == 40102 {
            Some(AblyErrorCode::IncompatibleCredentials)
        } else if code == 40103 {
            Some(AblyErrorCode::InvalidUseOfBasicAuthOverHttp)
        } else if code == 40104 {
            Some(AblyErrorCode::TokenExpired)
        } else if code == 40105 {
            Some(AblyErrorCode::TokenRevoked)
        } else if code == 40300 {
            Some(AblyErrorCode::Forbidden)
        } else if code == 40301 {
            Some(AblyErrorCode::AccountDisabled)
        } else if code == 40302 {
            Some(AblyErrorCode::AccountRestrictedConnectionLimitsExceeded)
        } else if code == 40303 {
            Some(AblyErrorCode::AccountRestrictedMessageLimitsExceeded)
        } else if code == 40304 {
            Some(AblyErrorCode::AccountRestrictedConnectionRateLimitExceeded)
        } else if code == 40305 {
            Some(AblyErrorCode::AccountBlocked)
        } else if code == 40400 {
            Some(AblyErrorCode::NotFound)
        } else if code == 40401 {
            Some(AblyErrorCode::ResourceNotFound)
        } else if code == 40500 {
            Some(AblyErrorCode::MethodNotAllowed)
        } else if code == 40800 {
            Some(AblyErrorCode::RequestTimeout)
        } else if code == 40801 {
            Some(AblyErrorCode::ConnectionTimeout)
        } else if code == 42900 {
            Some(AblyErrorCode::TooManyRequests)
        } else if code == 42901 {
            Some(AblyErrorCode::RateLimitExceeded)
        } else if code == 50000 {
            Some(AblyErrorCode::InternalServerError)
        } else if code == 50001 {
            Some(AblyErrorCode::InternalChannelError)
        } else if code == 50002 {
            Some(AblyErrorCode::InternalConnectionError)
        } else if code == 50003 {
            Some(AblyErrorCode::TimeoutError)
        } else if code == 50004 {
            Some(AblyErrorCode::RequestFailed)
        } else {
            None
        }
    }

    /// The category the code falls in.
    pub fn category(&self) -> (r: ErrorCategory)
        ensures
            r == spec_code_category(spec_code_value(*self)),
    {
        let v = self.to_u16();
        if 40000 <= v && v <= 40099 {
            ErrorCategory::BadRequest
        } else if 40100 <= v && v <= 40199 {
            ErrorCategory::Auth
        } else if 40300 <= v && v <= 40399 {
            ErrorCategory::Forbidden
        } else if 40400 <= v && v <= 40499 {
            ErrorCategory::NotFound
        } else if 40500 <= v && v <= 40599 {
            ErrorCategory::BadRequest
        } else if 40800 <= v && v <= 40899 {
            ErrorCategory::Network
        } else if 42900 <= v && v <= 42999 {
            ErrorCategory::RateLimit
        } else if 50000 <= v && v <= 50099 {
            ErrorCategory::Internal
        } else {
            ErrorCategory::Unknown
        }
    }

    /// Whether an operation failing with this code may succeed when retried.
    pub fn is_retryable(&self) -> (r: bool)
        ensures
            r == spec_code_retryable(*self),
    {
        match self {
            AblyErrorCode::RequestTimeout => true,
            AblyErrorCode::ConnectionTimeout => true,
            AblyErrorCode::TooManyRequests => true,
            AblyErrorCode::RateLimitExceeded => true,
            AblyErrorCode::InternalServerError => true,
            AblyErrorCode::InternalChannelError => true,
            AblyErrorCode::InternalConnectionError => true,
            AblyErrorCode::TimeoutError => true,
            AblyErrorCode::RequestFailed => true,
            _ => false,
        }
    }

    /// The default message of the code.
    pub fn default_message(&self) -> (r: &'static str)
        ensures
            r@ == spec_default_message(*self),
    {
        match self {
            AblyErrorCode::BadRequest => "Bad request",
            AblyErrorCode::InvalidRequestBody => "Invalid request body",
            AblyErrorCode::InvalidParameterName => "Invalid parameter name",
            AblyErrorCode::InvalidParameterValue => "Invalid parameter value",
            AblyErrorCode::InvalidHeader => "Invalid header",
            AblyErrorCode::InvalidCredential => "Invalid credential",
            AblyErrorCode::InvalidConnectionId => "Invalid connection ID",
            AblyErrorCode::InvalidMessageId => "Invalid message ID",
            AblyErrorCode::InvalidContentLength => "Invalid content length",
            AblyErrorCode::MaxMessageLengthExceeded => "Maximum message length exceeded",
            AblyErrorCode::InvalidChannelName => "Invalid channel name",
            AblyErrorCode::Unauthorized => "Unauthorized",
            AblyErrorCode::InvalidCredentials => "Invalid credentials",
            AblyErrorCode::IncompatibleCredentials => "Incompatible credentials",
            AblyErrorCode::InvalidUseOfBasicAuthOverHttp => "Invalid use of basic auth over non-TLS connection",
            AblyErrorCode::TokenExpired => "Token expired",
            AblyErrorCode::TokenRevoked => "Token revoked",
            AblyErrorCode::Forbidden => "Forbidden",
            AblyErrorCode::AccountDisabled => "Account disabled",
            AblyErrorCode::AccountRestrictedConnectionLimitsExceeded => "Account connection limits exceeded",
            AblyErrorCode::AccountRestrictedMessageLimitsExceeded => "Account message limits exceeded",
            AblyErrorCode::AccountRestrictedConnectionRateLimitExceeded => "Account connection rate limit exceeded",
            AblyErrorCode::AccountBlocked => "Account blocked",
            AblyErrorCode::NotFound => "Not found",
            AblyErrorCode::ResourceNotFound => "Resource not found",
            AblyErrorCode::MethodNotAllowed => "Method not allowed",
            AblyErrorCode::RequestTimeout => "Request timeout",
            AblyErrorCode::ConnectionTimeout => "Connection timeout",
            AblyErrorCode::TooManyRequests => "Too many requests",
            AblyErrorCode::RateLimitExceeded => "Rate limit exceeded",
            AblyErrorCode::InternalServerError => "Internal server error",
            AblyErrorCode::InternalChannelError => "Internal channel error",
            AblyErrorCode::InternalConnectionError => "Internal connection error",
            AblyErrorCode::TimeoutError => "Timeout error",
            AblyErrorCode::RequestFailed => "Request failed",
        }
    }
}

/// The Ably error code an HTTP status maps to.
pub fn http_to_ably_code(status: u16) -> (r: AblyErrorCode)
    ensures
        r == spec_http_to_ably_code(status),
{
    if status == 400 {
        AblyErrorCode::BadRequest
    } else if status == 401 {
        AblyErrorCode::Unauthorized
    } else if status == 403 {
        AblyErrorCode::Forbidden
    } else if status == 404 {
        AblyErrorCode::NotFound
    } else if status == 405 {
        AblyErrorCode::MethodNotAllowed
    } else if status == 408 {
        AblyErrorCode::RequestTimeout
    } else if status == 429 {
        AblyErrorCode::TooManyRequests
    } else if status == 500 {
        AblyErrorCode::InternalServerError
    } else if status == 502 || status == 503 || status == 504 {
        AblyErrorCode::RequestFailed
    } else {
        AblyErrorCode::BadRequest
    }
}

/// Every error code's numeric value maps back to the same code.
pub proof fn law_code_value_roundtrip(c: AblyErrorCode)
    ensures
        spec_code_from_value(spec_code_value(c)) == Some(c),
{
}

/// Every numeric value that names a code is that code's value.
pub proof fn law_code_from_value_inverse(v: u16)
    ensures
        spec_code_from_value(v) matches Some(c) ==> spec_code_value(c) == v,
{
}

/// The error code a default message belongs to, if any.
pub open spec fn code_of_default_message(m: Seq<char>) -> Option<AblyErrorCode> {
    if m == "Bad request"@ {
        Some(AblyErrorCode::BadRequest)
    } else if m == "Invalid request body"@ {
        Some(AblyErrorCode::InvalidRequestBody)
    } else if m == "Invalid parameter name"@ {
        Some(AblyErrorCode::InvalidParameterName)
    } else if m == "Invalid parameter value"@ {
        Some(AblyErrorCode::InvalidParameterValue)
    } else if m == "Invalid header"@ {
        Some(AblyErrorCode::InvalidHeader)
    } else if m == "Invalid credential"@ {
        Some(AblyErrorCode::InvalidCredential)
    } else if m == "Invalid connection ID"@ {
        Some(AblyErrorCode::InvalidConnectionId)
    } else if m == "Invalid message ID"@ {
        Some(AblyErrorCode::InvalidMessageId)
    } else if m == "Invalid content length"@ {
        Some(AblyErrorCode::InvalidContentLength)
    } else if m == "Maximum message length exceeded"@ {
        Some(AblyErrorCode::MaxMessageLengthExceeded)
    } else if m == "Invalid channel name"@ {
        Some(AblyErrorCode::InvalidChannelName)
    } else if m == "Unauthorized"@ {
        Some(AblyErrorCode::Unauthorized)
    } else if m == "Invalid credentials"@ {
        Some(AblyErrorCode::InvalidCredentials)
    } else if m == "Incompatible credentials"@ {
        Some(AblyErrorCode::IncompatibleCredentials)
    } else if m == "Invalid use of basic auth over non-TLS connection"@ {
        Some(AblyErrorCode::InvalidUseOfBasicAuthOverHttp)
    } else if m == "Token expired"@ {
        Some(AblyErrorCode::TokenExpired)
    } else if m == "Token revoked"@ {
        Some(AblyErrorCode::TokenRevoked)
    } else if m == "Forbidden"@ {
        Some(AblyErrorCode::Forbidden)
    } else if m == "Account disabled"@ {
        Some(AblyErrorCode::AccountDisabled)
    } else if m == "Account connection limits exceeded"@ {
        Some(AblyErrorCode::AccountRestrictedConnectionLimitsExceeded)
    } else if m == "Account message limits exceeded"@ {
        Some(AblyErrorCode::AccountRestrictedMessageLimitsExceeded)
    } else if m == "Account connection rate limit exceeded"@ {
        Some(AblyErrorCode::AccountRestrictedConnectionRateLimitExceeded)
    } else if m == "Account blocked"@ {
        Some(AblyErrorCode::AccountBlocked)
    } else if m == "Not found"@ {
        Some(AblyErrorCode::NotFound)
    } else if m == "Resource not found"@ {
        Some(AblyErrorCode::ResourceNotFound)
    } else if m == "Method not allowed"@ {
        Some(AblyErrorCode::MethodNotAllowed)
    } else if m == "Request timeout"@ {
        Some(AblyErrorCode::RequestTimeout)
    } else if m == "Connection timeout"@ {
        Some(AblyErrorCode::ConnectionTimeout)
    } else if m == "Too many requests"@ {
        Some(AblyErrorCode::TooManyRequests)
    } else if m == "Rate limit exceeded"@ {
        Some(AblyErrorCode::RateLimitExceeded)
    } else if m == "Internal server error"@ {
        Some(AblyErrorCode::InternalServerError)
    } else if m == "Internal channel error"@ {
        Some(AblyErrorCode::InternalChannelError)
    } else if m == "Internal connection error"@ {
        Some(AblyErrorCode::InternalConnectionError)
    } else if m == "Timeout error"@ {
        Some(AblyErrorCode::TimeoutError)
    } else if m == "Request failed"@ {
        Some(AblyErrorCode::RequestFailed)
    } else {
        None
    }
}

/// The lengths of the default messages, and the messages of equal
/// length that differ.
proof fn lemma_default_message_texts()
    ensures
        "Bad request"@.len() == 11,
        "Invalid request body"@.len() == 20,
        "Invalid parameter name"@.len() == 22,
        "Invalid parameter value"@.len() == 23,
        "Invalid header"@.len() == 14,
        "Invalid credential"@.len() == 18,
        "Invalid connection ID"@.len() == 21,
        "Invalid message ID"@.len() == 18,
        "Invalid content length"@.len() == 22,
        "Maximum message length exceeded"@.len() == 31,
        "Invalid channel name"@.len() == 20,
        "Unauthorized"@.len() == 12,
        "Invalid credentials"@.len() == 19,
        "Incompatible credentials"@.len() == 24,
        "Invalid use of basic auth over non-TLS connection"@.len() == 49,
        "Token expired"@.len() == 13,
        "Token revoked"@.len() == 13,
        "Forbidden"@.len() == 9,
        "Account disabled"@.len() == 16,
        "Account connection limits exceeded"@.len() == 34,
        "Account message limits exceeded"@.len() == 31,
        "Account connection rate limit exceeded"@.len() == 38,
        "Account blocked"@.len() == 15,
        "Not found"@.len() == 9,
        "Resource not found"@.len() == 18,
        "Method not allowed"@.len() == 18,
        "Request timeout"@.len() == 15,
        "Connection timeout"@.len() == 18,
        "Too many requests"@.len() == 17,
        "Rate limit exceeded"@.len() == 19,
        "Internal server error"@.len() == 21,
        "Internal channel error"@.len() == 22,
        "Internal connection error"@.len() == 25,
        "Timeout error"@.len() == 13,
        "Request failed"@.len() == 14,
        "Invalid request body"@ != "Invalid channel name"@,
        "Invalid parameter name"@ != "Invalid content length"@,
        "Invalid parameter name"@ != "Internal channel error"@,
        "Invalid header"@ != "Request failed"@,
        "Invalid credential"@ != "Invalid message ID"@,
        "Invalid credential"@ != "Resource not found"@,
        "Invalid credential"@ != "Method not allowed"@,
        "Invalid credential"@ != "Connection timeout"@,
        "Invalid connection ID"@ != "Internal server error"@,
        "Invalid message ID"@ != "Resource not found"@,
        "Invalid message ID"@ != "Method not allowed"@,
        "Invalid message ID"@ != "Connection timeout"@,
        "Invalid content length"@ != "Internal channel error"@,
        "Maximum message length exceeded"@ != "Account message limits exceeded"@,
        "Invalid credentials"@ != "Rate limit exceeded"@,
        "Token expired"@ != "Token revoked"@,
        "Token expired"@ != "Timeout error"@,
        "Token revoked"@ != "Timeout error"@,
        "Forbidden"@ != "Not found"@,
        "Account blocked"@ != "Request timeout"@,
        "Resource not found"@ != "Method not allowed"@,
        "Resource not found"@ != "Connection timeout"@,
        "Method not allowed"@ != "Connection timeout"@,
{
    reveal_strlit("Bad request");
    reveal_strlit("Invalid request body");
    reveal_strlit("Invalid parameter name");
    reveal_strlit("Invalid parameter value");
    reveal_strlit("Invalid header");
    reveal_strlit("Invalid credential");
    reveal_strlit("Invalid connection ID");
    reveal_strlit("Invalid message ID");
    reveal_strlit("Invalid content length");
    reveal_strlit("Maximum message length exceeded");
    reveal_strlit("Invalid channel name");
    reveal_strlit("Unauthorized");
    reveal_strlit("Invalid credentials");
    reveal_strlit("Incompatible credentials");
    reveal_strlit("Invalid use of basic auth over non-TLS connection");
    reveal_strlit("Token expired");
    reveal_strlit("Token revoked");
    reveal_strlit("Forbidden");
    reveal_strlit("Account disabled");
    reveal_strlit("Account connection limits exceeded");
    reveal_strlit("Account message limits exceeded");
    reveal_strlit("Account connection rate limit exceeded");
    reveal_strlit("Account blocked");
    reveal_strlit("Not found");
    reveal_strlit("Resource not found");
    reveal_strlit("Method not allowed");
    reveal_strlit("Request timeout");
    reveal_strlit("Connection timeout");
    reveal_strlit("Too many requests");
    reveal_strlit("Rate limit exceeded");
    reveal_strlit("Internal server error");
    reveal_strlit("Internal channel error");
    reveal_strlit("Internal connection error");
    reveal_strlit("Timeout error");
    reveal_strlit("Request failed");
    assert("Invalid request body"@[8] != "Invalid channel name"@[8]);
    assert("Invalid parameter name"@[8] != "Invalid content length"@[8]);
    assert("Invalid parameter name"@[2] != "Internal channel error"@[2]);
    assert("Invalid header"@[0] != "Request failed"@[0]);
    assert("Invalid credential"@[8] != "Invalid message ID"@[8]);
    assert("Invalid credential"@[0] != "Resource not found"@[0]);
    assert("Invalid credential"@[0] != "Method not allowed"@[0]);
    assert("Invalid credential"@[0] != "Connection timeout"@[0]);
    assert("Invalid connection ID"@[2] != "Internal server error"@[2]);
    assert("Invalid message ID"@[0] != "Resource not found"@[0]);
    assert("Invalid message ID"@[0] != "Method not allowed"@[0]);
    assert("Invalid message ID"@[0] != "Connection timeout"@[0]);
    assert("Invalid content length"@[2] != "Internal channel error"@[2]);
    assert("Maximum message length exceeded"@[0] != "Account message limits exceeded"@[0]);
    assert("Invalid credentials"@[0] != "Rate limit exceeded"@[0]);
    assert("Token expired"@[6] != "Token revoked"@[6]);
    assert("Token expired"@[1] != "Timeout error"@[1]);
    assert("Token revoked"@[1] != "Timeout error"@[1]);
    assert("Forbidden"@[0] != "Not found"@[0]);
    assert("Account blocked"@[0] != "Request timeout"@[0]);
    assert("Resource not found"@[0] != "Method not allowed"@[0]);
    assert("Resource not found"@[0] != "Connection timeout"@[0]);
    assert("Method not allowed"@[0] != "Connection timeout"@[0]);
}

/// Every error code's default message is non-empty and leads back to that
/// code, so distinct codes have distinct default messages.
pub proof fn law_default_message_identifies_code(c: AblyErrorCode)
    ensures
        spec_default_message(c).len() > 0,
        code_of_default_message(spec_default_message(c)) == Some(c),
{
    lemma_default_message_texts();
}

/// Distinct error codes have distinct, non-empty default messages.
pub proof fn law_default_messages_distinct(c1: AblyErrorCode, c2: AblyErrorCode)
    ensures
        spec_default_message(c1).len() > 0,
        c1 != c2 ==> spec_default_message(c1) != spec_default_message(c2),
{
    law_default_message_identifies_code(c1);
    law_default_message_identifies_code(c2);
}

/// The fields of an error response body, as the API writes it: a JSON
/// object whose member `error` holds `code` and `message`. `None` when the
/// body is not JSON or has no member `error`; otherwise the numeric `code`
/// (if it is an unsigned integer) and the string `message` (if it is a
/// string).
pub uninterp spec fn json_error_fields(body: Seq<char>) -> Option<(Option<u64>, Option<Seq<char>>)>;

/// Parses an error response body with `serde_json` and picks out
/// `error.code` (as an unsigned integer) and `error.message` (as a string).
/// The contract ties the result to the body through the name
/// `json_error_fields`; what JSON parsing yields is not restated.
#[verifier::external_body]
fn read_error_fields(body: &str) -> (r: Option<(Option<u64>, Option<String>)>)
    ensures
        match r {
            None => json_error_fields(body@) is None,
            Some((c, m)) => json_error_fields(body@) matches Some((jc, jm)) && jc == c && match m {
                None => jm is None,
                Some(s) => jm == Some(s@),
            },
        },
{
    let json: serde_json::Value = serde_json::from_str(body).ok()?;
    let error = json.get("error")?;
    let code = error.get("code").and_then(|c| c.as_u64());
    let message = error.get("message").and_then(|m| m.as_str()).map(|m| m.to_string());
    Some((code, message))
}

/// The error an HTTP error response stands for, given the status and the
/// fields read from its body (see `json_error_fields`): with no `error`
/// member, the error of the status's Ably code with that code's default
/// message; otherwise the error of the body's code (truncated to 16 bits,
/// or the status's code when absent) with the body's message (or the
/// code's default message, or "Unknown error").
pub open spec fn spec_error_for_response(
    status: u16,
    fields: Option<(Option<u64>, Option<Seq<char>>)>,
    e: AblyError,
) -> bool {
    match fields {
        None => {
            let c = spec_http_to_ably_code(status);
            spec_from_ably_code_matches(e, spec_code_value(c), spec_default_message(c))
        },
        Some((jc, jm)) => {
            let code: u16 = match jc {
                Some(v) => v as u16,
                None => spec_code_value(spec_http_to_ably_code(status)),
            };
            let msg = match jm {
                Some(m) => m,
                None => match spec_code_from_value(code) {
                    Some(c) => spec_default_message(c),
                    None => "Unknown error"@,
                },
            };
            spec_from_ably_code_matches(e, code, msg)
        },
    }
}

/// Builds the error for an HTTP error response from its status and the
/// fields read from its body.
pub fn error_from_response_fields(
    status: u16,
    fields: Option<(Option<u64>, Option<String>)>,
) -> (e: AblyError)
    ensures
        spec_error_for_response(
            status,
            match fields {
                None => None,
                Some((c, m)) => Some(
                    (
                        c,
                        match m {
                            None => None,
                            Some(s) => Some(s@),
                        },
                    ),
                ),
            },
            e,
        ),
{
    match fields {
        None => {
            let code = http_to_ably_code(status);
            AblyError::from_ably_code(code.to_u16(), code.default_message())
        },
        Some((jc, jm)) => {
            let code: u16 = match jc {
                Some(v) => v as u16,
                None => http_to_ably_code(status).to_u16(),
            };
            match jm {
                Some(m) => AblyError::from_ably_code(code, m.as_str()),
                None => {
                    let msg: &str = match AblyErrorCode::from_u16(code) {
                        Some(c) => c.default_message(),
                        None => "Unknown error",
                    };
                    AblyError::from_ably_code(code, msg)
                },
            }
        },
    }
}

/// Parses an error response from the Ably API into an error.
pub fn parse_ably_error(status: u16, body: &str) -> (e: AblyError)
    ensures
        spec_error_for_response(status, json_error_fields(body@), e),
{
    let fields = read_error_fields(body);
    error_from_response_fields(status, fields)
}

} // verus!
