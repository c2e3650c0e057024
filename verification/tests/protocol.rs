use yo_gurt::{
    Method, StatusCode, ALPN_IDENTIFIER, DEFAULT_CONNECTION_TIMEOUT_SECS,
    DEFAULT_HANDSHAKE_TIMEOUT_SECS, DEFAULT_PORT, DEFAULT_REQUEST_TIMEOUT_SECS,
    DEFAULT_USER_AGENT, GURT_VERSION, MAX_CONNECTION_POOL_SIZE, MAX_MESSAGE_SIZE,
    POOL_IDLE_TIMEOUT_SECS,
};

const METHODS: [(Method, &str); 8] = [
    (Method::Get, "GET"),
    (Method::Post, "POST"),
    (Method::Put, "PUT"),
    (Method::Delete, "DELETE"),
    (Method::Head, "HEAD"),
    (Method::Options, "OPTIONS"),
    (Method::Patch, "PATCH"),
    (Method::Handshake, "HANDSHAKE"),
];

const STATUSES: [(StatusCode, u16, &str); 18] = [
    (StatusCode::SwitchingProtocols, 101, "SWITCHING_PROTOCOLS"),
    (StatusCode::Okay, 200, "OK"),
    (StatusCode::Created, 201, "CREATED"),
    (StatusCode::Accepted, 202, "ACCEPTED"),
    (StatusCode::NoContent, 204, "NO_CONTENT"),
    (StatusCode::BadRequest, 400, "BAD_REQUEST"),
    (StatusCode::Unauthorized, 401, "UNAUTHORIZED"),
    (StatusCode::Forbidden, 403, "FORBIDDEN"),
    (StatusCode::NotFound, 404, "NOT_FOUND"),
    (StatusCode::MethodNotAllowed, 405, "METHOD_NOT_ALLOWED"),
    (StatusCode::Timeout, 408, "TIMEOUT"),
    (StatusCode::TooLarge, 413, "TOO_LARGE"),
    (StatusCode::UnsupportedMediaType, 415, "UNSUPPORTED_MEDIA_TYPE"),
    (StatusCode::InternalServerError, 500, "INTERNAL_SERVER_ERROR"),
    (StatusCode::NotImplemented, 501, "NOT_IMPLEMENTED"),
    (StatusCode::BadGateway, 502, "BAD_GATEWAY"),
    (StatusCode::ServiceUnavailable, 503, "SERVICE_UNAVAILABLE"),
    (StatusCode::GatewayTimeout, 504, "GATEWAY_TIMEOUT"),
];

#[test]
fn constants_have_the_protocol_values() {
    assert_eq!(GURT_VERSION, "GURT/1.0.0");
    assert_eq!(ALPN_IDENTIFIER, "GURT/1.0");
    assert_eq!(DEFAULT_PORT, 4878);
    assert_eq!(MAX_MESSAGE_SIZE, 10 * 1024 * 1024);
    assert_eq!(MAX_MESSAGE_SIZE, 10_485_760);
    assert_eq!(DEFAULT_CONNECTION_TIMEOUT_SECS, 10);
    assert_eq!(DEFAULT_REQUEST_TIMEOUT_SECS, 30);
    assert_eq!(DEFAULT_HANDSHAKE_TIMEOUT_SECS, 5);
    assert_eq!(MAX_CONNECTION_POOL_SIZE, 10);
    assert_eq!(POOL_IDLE_TIMEOUT_SECS, 300);
    assert_eq!(DEFAULT_USER_AGENT, "yo-gurt/0.1");
}

#[test]
fn method_as_str_gives_the_upper_case_token() {
    for (method, token) in METHODS {
        assert_eq!(method.as_str(), token);
    }
}

#[test]
fn method_from_bytes_recognises_every_token() {
    for (method, token) in METHODS {
        assert_eq!(Method::from_bytes(token.as_bytes()), Some(method));
    }
}

#[test]
fn method_round_trips_through_its_token() {
    for (method, _) in METHODS {
        assert_eq!(Method::from_bytes(method.as_str().as_bytes()), Some(method));
    }
}

#[test]
fn method_from_bytes_rejects_what_is_no_token() {
    assert_eq!(Method::from_bytes(b""), None);
    assert_eq!(Method::from_bytes(b"get"), None);
    assert_eq!(Method::from_bytes(b"Get"), None);
    assert_eq!(Method::from_bytes(b"GET "), None);
    assert_eq!(Method::from_bytes(b" GET"), None);
    assert_eq!(Method::from_bytes(b"GE"), None);
    assert_eq!(Method::from_bytes(b"GETS"), None);
    assert_eq!(Method::from_bytes(b"TRACE"), None);
    assert_eq!(Method::from_bytes(b"CONNECT"), None);
    assert_eq!(Method::from_bytes(&[0xff, 0x00]), None);
}

#[test]
fn methods_are_copied_and_compared() {
    let method = Method::Patch;
    let copy = method;
    assert_eq!(method, copy);
    assert_ne!(Method::Get, Method::Head);
    assert_eq!(format!("{:?}", Method::Handshake), "Handshake");
}

#[test]
fn status_as_u16_gives_the_number() {
    for (status, code, _) in STATUSES {
        assert_eq!(status.as_u16(), code);
    }
}

#[test]
fn status_reason_phrase_is_canonical() {
    for (status, _, phrase) in STATUSES {
        assert_eq!(status.reason_phrase(), phrase);
    }
}

#[test]
fn status_from_u16_finds_every_status() {
    for (status, code, _) in STATUSES {
        assert_eq!(StatusCode::from_u16(code), Some(status));
    }
}

#[test]
fn status_round_trips_through_its_number() {
    for (status, _, _) in STATUSES {
        assert_eq!(StatusCode::from_u16(status.as_u16()), Some(status));
    }
}

#[test]
fn status_from_u16_rejects_every_other_number() {
    let mut recognised = 0;
    for code in 0..=u16::MAX {
        match StatusCode::from_u16(code) {
            Some(status) => {
                assert_eq!(status.as_u16(), code);
                recognised += 1;
            }
            None => assert!(STATUSES.iter().all(|(_, known, _)| *known != code)),
        }
    }
    assert_eq!(recognised, 18);
}

#[test]
fn status_from_u16_rejects_neighbours_of_statuses() {
    for code in [0, 1, 100, 102, 199, 203, 205, 299, 300, 399, 402, 406, 407, 409, 414, 416, 499, 505, 599, 65535]
    {
        assert_eq!(StatusCode::from_u16(code), None);
    }
}

#[test]
fn reason_phrases_are_upper_snake_case() {
    for (status, _, _) in STATUSES {
        let phrase = status.reason_phrase();
        assert!(!phrase.is_empty());
        assert!(phrase.bytes().all(|b| b.is_ascii_uppercase() || b == b'_'));
    }
}
