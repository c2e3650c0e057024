//! The protocol's vocabulary: its constants, the request methods and the
//! status codes, each with the text that stands for it on the wire.

use vstd::prelude::*;
use vstd::string::StringSliceAdditionalSpecFns;

verus! {

/// Version token that ends every request line and opens every status line.
pub const GURT_VERSION: &'static str = "GURT/1.0.0";

/// Port a server listens on unless told otherwise.
pub const DEFAULT_PORT: u16 = 4878;

/// Token negotiated through ALPN while the encrypted transport is set up.
pub const ALPN_IDENTIFIER: &'static str = "GURT/1.0";

/// Largest message, in bytes, that a peer has to accept (10 MiB).
pub const MAX_MESSAGE_SIZE: usize = 10 * 1024 * 1024;

/// Seconds a caller should allow for establishing a connection.
pub const DEFAULT_CONNECTION_TIMEOUT_SECS: u32 = 10;

/// Seconds a caller should allow for one request and its response.
pub const DEFAULT_REQUEST_TIMEOUT_SECS: u32 = 30;

/// Seconds a caller should allow for the handshake exchange.
pub const DEFAULT_HANDSHAKE_TIMEOUT_SECS: u32 = 5;

/// Largest number of connections a pool should keep.
pub const MAX_CONNECTION_POOL_SIZE: usize = 10;

/// Seconds after which a pool should drop an idle connection.
pub const POOL_IDLE_TIMEOUT_SECS: u32 = 300;

/// User agent sent when the caller names none.
pub const DEFAULT_USER_AGENT: &'static str = "yo-gurt/0.1";

/// Request methods.
///
/// `Get`, `Delete`, `Head`, `Options` and `Handshake` are sent without a body,
/// `Post`, `Put` and `Patch` with one. The type does not enforce this.
#[derive(Debug, Clone, Copy, PartialEq, Eq, Structural)]
pub enum Method {
    /// Retrieve a resource.
    Get,
    /// Create or submit data.
    Post,
    /// Update or replace a resource.
    Put,
    /// Remove a resource.
    Delete,
    /// Retrieve the headers only.
    Head,
    /// Ask which methods are allowed.
    Options,
    /// Update part of a resource.
    Patch,
    /// Open a session: the first exchange on every connection.
    Handshake,
}

impl Method {
    /// The upper-case token of the method.
    pub open spec fn token(self) -> Seq<char> {
        match self {
            Method::Get => "GET"@,
            Method::Post => "POST"@,
            Method::Put => "PUT"@,
            Method::Delete => "DELETE"@,
            Method::Head => "HEAD"@,
            Method::Options => "OPTIONS"@,
            Method::Patch => "PATCH"@,
            Method::Handshake => "HANDSHAKE"@,
        }
    }

    /// The bytes of the token as they stand in a request line.
    pub open spec fn wire(self) -> Seq<u8> {
        match self {
            Method::Get => "GET".spec_bytes(),
            Method::Post => "POST".spec_bytes(),
            Method::Put => "PUT".spec_bytes(),
            Method::Delete => "DELETE".spec_bytes(),
            Method::Head => "HEAD".spec_bytes(),
            Method::Options => "OPTIONS".spec_bytes(),
            Method::Patch => "PATCH".spec_bytes(),
            Method::Handshake => "HANDSHAKE".spec_bytes(),
        }
    }

    /// The method with the token `bytes`, if there is one.
    pub open spec fn with_token(bytes: Seq<u8>) -> Option<Method> {
        if exists|m: Method| m.wire() == bytes {
            Some(choose|m: Method| m.wire() == bytes)
        } else {
            None
        }
    }

    /// Returns the token of the method.
    pub fn as_str(&self) -> (s: &'static str)
        ensures
            s@ == self.token(),
            s.spec_bytes() == self.wire(),
    {
        match self {
            Method::Get => "GET",
            Method::Post => "POST",
            Method::Put => "PUT",
            Method::Delete => "DELETE",
            Method::Head => "HEAD",
            Method::Options => "OPTIONS",
            Method::Patch => "PATCH",
            Method::Handshake => "HANDSHAKE",
        }
    }

    /// Recognises a method by its token. Any other bytes, a token in lower
    /// case among them, give `None`.
    pub fn from_bytes(bytes: &[u8]) -> (m: Option<Method>)
        ensures
            match m {
                Some(x) => x.wire() == bytes@,
                None => forall|x: Method| x.wire() != bytes@,
            },
            m == Method::with_token(bytes@),
    {
        let m = if bytes_eq(bytes, "GET".as_bytes()) {
            Some(Method::Get)
        } else if bytes_eq(bytes, "POST".as_bytes()) {
            Some(Method::Post)
        } else if bytes_eq(bytes, "PUT".as_bytes()) {
            Some(Method::Put)
        } else if bytes_eq(bytes, "DELETE".as_bytes()) {
            Some(Method::Delete)
        } else if bytes_eq(bytes, "HEAD".as_bytes()) {
            Some(Method::Head)
        } else if bytes_eq(bytes, "OPTIONS".as_bytes()) {
            Some(Method::Options)
        } else if bytes_eq(bytes, "PATCH".as_bytes()) {
            Some(Method::Patch)
        } else if bytes_eq(bytes, "HANDSHAKE".as_bytes()) {
            Some(Method::Handshake)
        } else {
            None
        };
        proof {
            if let Some(found) = m {
                lemma_method_round_trip(found);
            }
        }
        m
    }
}

/// Whether two byte strings hold the same bytes.
pub fn bytes_eq(a: &[u8], b: &[u8]) -> (same: bool)
    ensures
        same == (a@ == b@),
{
    if a.len() != b.len() {
        return false;
    }
    let mut i: usize = 0;
    while i < a.len()
        invariant
            a@.len() == b@.len(),
            i <= a@.len(),
            forall|j: int| 0 <= j < i ==> a@[j] == b@[j],
        decreases a@.len() - i,
    {
        if a[i] != b[i] {
            return false;
        }
        i += 1;
    }
    assert(a@ =~= b@);
    true
}

/// Two methods with the same token are the same method.
pub proof fn lemma_method_tokens_distinct(a: Method, b: Method)
    requires
        a.wire() == b.wire(),
    ensures
        a == b,
{
    broadcast use vstd::string::is_ascii_spec_bytes;

    reveal_strlit("GET");
    reveal_strlit("POST");
    reveal_strlit("PUT");
    reveal_strlit("DELETE");
    reveal_strlit("HEAD");
    reveal_strlit("OPTIONS");
    reveal_strlit("PATCH");
    reveal_strlit("HANDSHAKE");
    lemma_token_bytes(a);
    lemma_token_bytes(b);
    assert(a.token().len() == b.token().len());
    assert(a.wire()[0] == a.token()[0] as u8);
    assert(b.wire()[0] == b.token()[0] as u8);
}

/// The token of a method is recognised as that method: `from_bytes` gives
/// back the method whose `as_str` it is handed.
pub proof fn lemma_method_round_trip(m: Method)
    ensures
        Method::with_token(m.wire()) == Some(m),
{
    let found = choose|x: Method| x.wire() == m.wire();
    lemma_method_tokens_distinct(found, m);
}

/// The token of a method is plain ASCII in upper case: one byte for each
/// character, each of them a letter from `A` to `Z`.
pub proof fn lemma_token_bytes(m: Method)
    ensures
        m.wire().len() == m.token().len(),
        forall|i: int| 0 <= i < m.token().len() ==> m.wire()[i] == m.token()[i] as u8,
        forall|i: int| 0 <= i < m.token().len() ==> 65 <= #[trigger] m.wire()[i] <= 90,
{
    broadcast use vstd::string::is_ascii_spec_bytes;

    reveal_strlit("GET");
    reveal_strlit("POST");
    reveal_strlit("PUT");
    reveal_strlit("DELETE");
    reveal_strlit("HEAD");
    reveal_strlit("OPTIONS");
    reveal_strlit("PATCH");
    reveal_strlit("HANDSHAKE");
    assert(vstd::string::is_ascii("GET"));
    assert(vstd::string::is_ascii("POST"));
    assert(vstd::string::is_ascii("PUT"));
    assert(vstd::string::is_ascii("DELETE"));
    assert(vstd::string::is_ascii("HEAD"));
    assert(vstd::string::is_ascii("OPTIONS"));
    assert(vstd::string::is_ascii("PATCH"));
    assert(vstd::string::is_ascii("HANDSHAKE"));
}

/// Status codes of a response. No other number is a status of this protocol.
#[derive(Debug, Clone, Copy, PartialEq, Eq, Structural)]
pub enum StatusCode {
    /// 101: the handshake succeeded.
    SwitchingProtocols,
    /// 200: the request succeeded.
    Okay,
    /// 201: a resource was created.
    Created,
    /// 202: the request was accepted for processing.
    Accepted,
    /// 204: success, and the response has no body.
    NoContent,
    /// 400: the request was malformed.
    BadRequest,
    /// 401: authentication is required.
    Unauthorized,
    /// 403: access is denied.
    Forbidden,
    /// 404: no such resource.
    NotFound,
    /// 405: the method is not supported here.
    MethodNotAllowed,
    /// 408: the request timed out.
    Timeout,
    /// 413: the request is too large.
    TooLarge,
    /// 415: the content type is not supported.
    UnsupportedMediaType,
    /// 500: the server failed.
    InternalServerError,
    /// 501: the method is not implemented.
    NotImplemented,
    /// 502: a gateway failed.
    BadGateway,
    /// 503: the service is unavailable.
    ServiceUnavailable,
    /// 504: a gateway timed out.
    GatewayTimeout,
}

impl StatusCode {
    /// The number of the status.
    pub open spec fn code(self) -> u16 {
        match self {
            StatusCode::SwitchingProtocols => 101,
            StatusCode::Okay => 200,
            StatusCode::Created => 201,
            StatusCode::Accepted => 202,
            StatusCode::NoContent => 204,
            StatusCode::BadRequest => 400,
            StatusCode::Unauthorized => 401,
            StatusCode::Forbidden => 403,
            StatusCode::NotFound => 404,
            StatusCode::MethodNotAllowed => 405,
            StatusCode::Timeout => 408,
            StatusCode::TooLarge => 413,
            StatusCode::UnsupportedMediaType => 415,
            StatusCode::InternalServerError => 500,
            StatusCode::NotImplemented => 501,
            StatusCode::BadGateway => 502,
            StatusCode::ServiceUnavailable => 503,
            StatusCode::GatewayTimeout => 504,
        }
    }

    /// The canonical reason phrase of the status, in upper snake case.
    pub open spec fn phrase(self) -> Seq<char> {
        match self {
            StatusCode::SwitchingProtocols => "SWITCHING_PROTOCOLS"@,
            StatusCode::Okay => "OK"@,
            StatusCode::Created => "CREATED"@,
            StatusCode::Accepted => "ACCEPTED"@,
            StatusCode::NoContent => "NO_CONTENT"@,
            StatusCode::BadRequest => "BAD_REQUEST"@,
            StatusCode::Unauthorized => "UNAUTHORIZED"@,
            StatusCode::Forbidden => "FORBIDDEN"@,
            StatusCode::NotFound => "NOT_FOUND"@,
            StatusCode::MethodNotAllowed => "METHOD_NOT_ALLOWED"@,
            StatusCode::Timeout => "TIMEOUT"@,
            StatusCode::TooLarge => "TOO_LARGE"@,
            StatusCode::UnsupportedMediaType => "UNSUPPORTED_MEDIA_TYPE"@,
            StatusCode::InternalServerError => "INTERNAL_SERVER_ERROR"@,
            StatusCode::NotImplemented => "NOT_IMPLEMENTED"@,
            StatusCode::BadGateway => "BAD_GATEWAY"@,
            StatusCode::ServiceUnavailable => "SERVICE_UNAVAILABLE"@,
            StatusCode::GatewayTimeout => "GATEWAY_TIMEOUT"@,
        }
    }

    /// The status with the number `code`, if there is one.
    pub open spec fn with_code(code: u16) -> Option<StatusCode> {
        if exists|s: StatusCode| s.code() == code {
            Some(choose|s: StatusCode| s.code() == code)
        } else {
            None
        }
    }

    /// Returns the number of the status.
    pub fn as_u16(&self) -> (code: u16)
        ensures
            code == self.code(),
    {
        match self {
            StatusCode::SwitchingProtocols => 101,
            StatusCode::Okay => 200,
            StatusCode::Created => 201,
            StatusCode::Accepted => 202,
            StatusCode::NoContent => 204,
            StatusCode::BadRequest => 400,
            StatusCode::Unauthorized => 401,
            StatusCode::Forbidden => 403,
            StatusCode::NotFound => 404,
            StatusCode::MethodNotAllowed => 405,
            StatusCode::Timeout => 408,
            StatusCode::TooLarge => 413,
            StatusCode::UnsupportedMediaType => 415,
            StatusCode::InternalServerError => 500,
            StatusCode::NotImplemented => 501,
            StatusCode::BadGateway => 502,
            StatusCode::ServiceUnavailable => 503,
            StatusCode::GatewayTimeout => 504,
        }
    }

    /// Returns the canonical reason phrase of the status.
    pub fn reason_phrase(&self) -> (s: &'static str)
        ensures
            s@ == self.phrase(),
    {
        match self {
            StatusCode::SwitchingProtocols => "SWITCHING_PROTOCOLS",
            StatusCode::Okay => "OK",
            StatusCode::Created => "CREATED",
            StatusCode::Accepted => "ACCEPTED",
            StatusCode::NoContent => "NO_CONTENT",
            StatusCode::BadRequest => "BAD_REQUEST",
            StatusCode::Unauthorized => "UNAUTHORIZED",
            StatusCode::Forbidden => "FORBIDDEN",
            StatusCode::NotFound => "NOT_FOUND",
            StatusCode::MethodNotAllowed => "METHOD_NOT_ALLOWED",
            StatusCode::Timeout => "TIMEOUT",
            StatusCode::TooLarge => "TOO_LARGE",
            StatusCode::UnsupportedMediaType => "UNSUPPORTED_MEDIA_TYPE",
            StatusCode::InternalServerError => "INTERNAL_SERVER_ERROR",
            StatusCode::NotImplemented => "NOT_IMPLEMENTED",
            StatusCode::BadGateway => "BAD_GATEWAY",
            StatusCode::ServiceUnavailable => "SERVICE_UNAVAILABLE",
            StatusCode::GatewayTimeout => "GATEWAY_TIMEOUT",
        }
    }

    /// Finds the status with the given number. A number that is no status of
    /// this protocol gives `None`: it is never passed through.
    pub fn from_u16(code: u16) -> (status: Option<StatusCode>)
        ensures
            match status {
                Some(s) => s.code() == code,
                None => forall|s: StatusCode| s.code() != code,
            },
            status == StatusCode::with_code(code),
    {
        let status = match code {
            101 => Some(StatusCode::SwitchingProtocols),
            200 => Some(StatusCode::Okay),
            201 => Some(StatusCode::Created),
            202 => Some(StatusCode::Accepted),
            204 => Some(StatusCode::NoContent),
            400 => Some(StatusCode::BadRequest),
            401 => Some(StatusCode::Unauthorized),
            403 => Some(StatusCode::Forbidden),
            404 => Some(StatusCode::NotFound),
            405 => Some(StatusCode::MethodNotAllowed),
            408 => Some(StatusCode::Timeout),
            413 => Some(StatusCode::TooLarge),
            415 => Some(StatusCode::UnsupportedMediaType),
            500 => Some(StatusCode::InternalServerError),
            501 => Some(StatusCode::NotImplemented),
            502 => Some(StatusCode::BadGateway),
            503 => Some(StatusCode::ServiceUnavailable),
            504 => Some(StatusCode::GatewayTimeout),
            _ => None,
        };
        proof {
            if let Some(found) = status {
                lemma_status_round_trip(found);
            }
        }
        status
    }
}

/// Two statuses with the same number are the same status.
pub proof fn lemma_status_codes_distinct(a: StatusCode, b: StatusCode)
    requires
        a.code() == b.code(),
    ensures
        a == b,
{
}

/// The number of a status is recognised as that status: `from_u16` gives
/// back the status whose `as_u16` it is handed.
pub proof fn lemma_status_round_trip(status: StatusCode)
    ensures
        StatusCode::with_code(status.code()) == Some(status),
{
    let found = choose|s: StatusCode| s.code() == status.code();
    lemma_status_codes_distinct(found, status);
}

} // verus!
