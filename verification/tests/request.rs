use yo_gurt::{GurtClient, HeaderWriter, Method, ReadEvent, Step};

const METHODS: [(Method, &str); 8] = [
    (Method::Get, "GET"),
    (Method::Post, "POST"),
    (Method::Put, "PUT"),
    (Method::Delete, "DELETE"),
    (Method::Head, "HEAD"),
    (Method::Options, "OPTIONS"),
    (Method::Patch, "PATCH"),
    (Method::Handshake, "HANDSHAKE"),
];

fn text(bytes: &[u8]) -> String {
    String::from_utf8(bytes.to_vec()).unwrap()
}

#[test]
fn handshake_is_the_exact_text() {
    let client = GurtClient::new(());
    let head = client.handshake("example.com", "GURT-Client/1.0.0");
    assert_eq!(
        text(&head),
        "HANDSHAKE / GURT/1.0.0\r\nhost: example.com\r\nuser-agent: GURT-Client/1.0.0\r\n\r\n"
    );
}

#[test]
fn handshake_with_empty_texts() {
    let client = GurtClient::new(());
    let head = client.handshake("", "");
    assert_eq!(text(&head), "HANDSHAKE / GURT/1.0.0\r\nhost: \r\nuser-agent: \r\n\r\n");
}

#[test]
fn request_no_body_is_the_template_for_every_method() {
    let client = GurtClient::new(());
    for (method, token) in METHODS {
        let head = client.request_no_body(method, "/api/data", "example.com", None);
        let expected = format!(
            "{} /api/data GURT/1.0.0\r\nhost: example.com\r\nuser-agent: yo-gurt/0.1\r\n\r\n",
            token
        );
        assert_eq!(text(&head), expected);
    }
}

#[test]
fn request_no_body_get_is_the_exact_text() {
    let client = GurtClient::new(());
    let head = client.request_no_body(Method::Get, "/", "example.com", None);
    assert_eq!(
        head,
        b"GET / GURT/1.0.0\r\nhost: example.com\r\nuser-agent: yo-gurt/0.1\r\n\r\n"
    );
}

#[test]
fn request_no_body_sends_the_given_user_agent() {
    let client = GurtClient::new(());
    for (method, token) in METHODS {
        let head = client.request_no_body(method, "/x", "h", Some("tester/2"));
        let expected = format!("{} /x GURT/1.0.0\r\nhost: h\r\nuser-agent: tester/2\r\n\r\n", token);
        assert_eq!(text(&head), expected);
    }
}

#[test]
fn request_no_body_keeps_bytes_beyond_ascii() {
    let client = GurtClient::new(());
    let head = client.request_no_body(Method::Get, "/caf\u{e9}", "b\u{fc}cher.example", None);
    let expected =
        "GET /caf\u{e9} GURT/1.0.0\r\nhost: b\u{fc}cher.example\r\nuser-agent: yo-gurt/0.1\r\n\r\n";
    assert_eq!(head, expected.as_bytes());
}

#[test]
fn request_with_body_is_the_exact_text() {
    let mut client = GurtClient::new(());
    let (head, writer) = client.request_with_body(
        Method::Post,
        "/items",
        "example.com",
        None,
        Some("application/json"),
        13,
    );
    writer.finish();
    assert_eq!(
        text(&head),
        "POST /items GURT/1.0.0\r\nhost: example.com\r\ncontent-type: application/json\r\ncontent-length: 13\r\nuser-agent: yo-gurt/0.1\r\n\r\n"
    );
}

#[test]
fn request_with_body_leaves_out_the_content_type_where_none_is_given() {
    let mut client = GurtClient::new(());
    let (head, writer) =
        client.request_with_body(Method::Put, "/items/7", "example.com", Some("agent"), None, 0);
    writer.finish();
    assert_eq!(
        text(&head),
        "PUT /items/7 GURT/1.0.0\r\nhost: example.com\r\ncontent-length: 0\r\nuser-agent: agent\r\n\r\n"
    );
}

#[test]
fn request_with_body_writes_headers_in_the_fixed_order() {
    let mut client = GurtClient::new(());
    let (head, writer) =
        client.request_with_body(Method::Patch, "/p", "h", Some("ua"), Some("text/plain"), 5);
    writer.finish();
    let head = text(&head);
    let host = head.find("\r\nhost: ").unwrap();
    let content_type = head.find("\r\ncontent-type: ").unwrap();
    let content_length = head.find("\r\ncontent-length: ").unwrap();
    let user_agent = head.find("\r\nuser-agent: ").unwrap();
    assert!(host < content_type);
    assert!(content_type < content_length);
    assert!(content_length < user_agent);
    assert!(head.ends_with("\r\nuser-agent: ua\r\n\r\n"));
}

#[test]
fn request_with_body_writes_the_length_in_decimal() {
    let mut client = GurtClient::new(());
    for length in [0, 1, 9, 10, 123, 10_485_760, usize::MAX] {
        let (head, writer) =
            client.request_with_body(Method::Post, "/", "h", None, None, length);
        writer.finish();
        let expected = format!(
            "POST / GURT/1.0.0\r\nhost: h\r\ncontent-length: {}\r\nuser-agent: yo-gurt/0.1\r\n\r\n",
            length
        );
        assert_eq!(text(&head), expected);
    }
}

#[test]
fn request_with_body_is_built_for_every_method() {
    let mut client = GurtClient::new(());
    for (method, token) in METHODS {
        let (head, writer) =
            client.request_with_body(method, "/r", "h", None, Some("a/b"), 42);
        writer.finish();
        let expected = format!(
            "{} /r GURT/1.0.0\r\nhost: h\r\ncontent-type: a/b\r\ncontent-length: 42\r\nuser-agent: yo-gurt/0.1\r\n\r\n",
            token
        );
        assert_eq!(text(&head), expected);
    }
}

#[test]
fn write_header_appends_one_line() {
    let mut out: Vec<u8> = Vec::new();
    out.write_header("host", "example.com");
    assert_eq!(out, b"host: example.com\r\n");
    out.write_header("content-type", "application/json");
    assert_eq!(out, b"host: example.com\r\ncontent-type: application/json\r\n");
    out.write_header("x-empty", "");
    assert_eq!(out, b"host: example.com\r\ncontent-type: application/json\r\nx-empty: \r\n");
}

#[test]
fn write_header_does_not_change_the_name() {
    let mut out = b"GET / GURT/1.0.0\r\n".to_vec();
    out.write_header("X-Mixed", "Value: with colon");
    assert_eq!(out, b"GET / GURT/1.0.0\r\nX-Mixed: Value: with colon\r\n");
}

#[test]
fn the_client_holds_the_transport_it_was_given() {
    let client = GurtClient::new(vec![1u8, 2, 3]);
    assert_eq!(client.transport, vec![1u8, 2, 3]);
}

#[test]
fn the_body_writer_has_the_transport_on_loan() {
    let mut client = GurtClient::new(Vec::<u8>::new());
    let (head, mut writer) =
        client.request_with_body(Method::Post, "/items", "example.com", None, None, 2);
    writer.transport().extend_from_slice(&head);
    writer.transport().extend_from_slice(b"{}");
    writer.finish();
    assert_eq!(
        client.transport,
        b"POST /items GURT/1.0.0\r\nhost: example.com\r\ncontent-length: 2\r\nuser-agent: yo-gurt/0.1\r\n\r\n{}"
    );
}

#[test]
fn the_response_reader_has_the_transport_on_loan() {
    let mut client = GurtClient::new(vec![7u8]);
    {
        let mut reader = client.response_reader();
        assert_eq!(reader.transport().pop(), Some(7));
        reader.transport().push(9);
        let mut buf = [0u8; 4];
        assert!(matches!(
            reader.read_header::<()>(&mut buf, ReadEvent::Start),
            Step::NeedByte
        ));
        assert_eq!(reader.transport(), &vec![9u8]);
    }
    assert_eq!(client.transport, vec![9u8]);
}

#[test]
fn building_a_request_leaves_the_transport_alone() {
    let client = GurtClient::new(vec![5u8]);
    let _ = client.handshake("h", "ua");
    let _ = client.request_no_body(Method::Get, "/", "h", None);
    assert_eq!(client.transport, vec![5u8]);
}
