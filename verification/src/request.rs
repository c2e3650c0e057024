//! Encoding a request: the request line and the headers, as the bytes that
//! the caller sends before the body.

use crate::decimal::{decimal, write_usize};
use crate::protocol::{Method, DEFAULT_USER_AGENT, GURT_VERSION};
use crate::response::ResponseReader;
use vstd::prelude::*;
use vstd::string::StringSliceAdditionalSpecFns;

verus! {

/// The bytes of a text, or of the text to fall back on where there is none.
pub open spec fn bytes_or(text: Option<&str>, fallback: &str) -> Seq<u8> {
    match text {
        Some(t) => t.spec_bytes(),
        None => fallback.spec_bytes(),
    }
}

/// One header line: the name, a colon and a space, the value, and the line
/// terminator.
pub open spec fn header_line(name: Seq<u8>, value: Seq<u8>) -> Seq<u8> {
    name + ": ".spec_bytes() + value + "\r\n".spec_bytes()
}

/// The handshake that opens a session:
/// `HANDSHAKE / GURT/1.0.0\r\nhost: <host>\r\nuser-agent: <user_agent>\r\n\r\n`.
pub open spec fn handshake_head(host: Seq<u8>, user_agent: Seq<u8>) -> Seq<u8> {
    "HANDSHAKE / GURT/1.0.0\r\nhost: ".spec_bytes() + host + "\r\nuser-agent: ".spec_bytes()
        + user_agent + "\r\n\r\n".spec_bytes()
}

/// A request without a body:
/// `<METHOD> <path> GURT/1.0.0\r\nhost: <host>\r\nuser-agent: <user_agent>\r\n\r\n`.
pub open spec fn request_head(
    method: Method,
    path: Seq<u8>,
    host: Seq<u8>,
    user_agent: Seq<u8>,
) -> Seq<u8> {
    method.wire() + " ".spec_bytes() + path + " GURT/1.0.0\r\nhost: ".spec_bytes() + host
        + "\r\nuser-agent: ".spec_bytes() + user_agent + "\r\n\r\n".spec_bytes()
}

/// The head of a request with a body:
/// `<METHOD> <path> GURT/1.0.0\r\nhost: <host>\r\ncontent-type: <content_type>\r\ncontent-length: <n>\r\nuser-agent: <user_agent>\r\n\r\n`,
/// the length in decimal, and the header `content-type` there only where a
/// content type is given. The body follows directly.
pub open spec fn body_request_head(
    method: Method,
    path: Seq<u8>,
    host: Seq<u8>,
    user_agent: Seq<u8>,
    content_type: Option<Seq<u8>>,
    content_length: nat,
) -> Seq<u8> {
    method.wire() + " ".spec_bytes() + path + " GURT/1.0.0\r\nhost: ".spec_bytes() + host + (
    match content_type {
        Some(t) => "\r\ncontent-type: ".spec_bytes() + t,
        None => Seq::empty(),
    }) + "\r\ncontent-length: ".spec_bytes() + decimal(content_length)
        + "\r\nuser-agent: ".spec_bytes() + user_agent + "\r\n\r\n".spec_bytes()
}

/// The request line: the method's token, the path and the protocol's version,
/// with one space between them, and the line terminator.
pub open spec fn request_line(method: Method, path: Seq<u8>) -> Seq<u8> {
    method.wire() + " ".spec_bytes() + path + " ".spec_bytes() + GURT_VERSION.spec_bytes()
        + "\r\n".spec_bytes()
}

/// Something that header lines can be written to.
pub trait HeaderWriter {
    /// The bytes that were written so far.
    spec fn written(&self) -> Seq<u8>;

    /// Writes one header line behind what was written so far. Names are in
    /// lower case by the protocol's convention; the writer does not change
    /// them.
    fn write_header(&mut self, name: &str, value: &str)
        ensures
            final(self).written() == old(self).written() + header_line(
                name.spec_bytes(),
                value.spec_bytes(),
            ),
    ;
}

impl HeaderWriter for Vec<u8> {
    open spec fn written(&self) -> Seq<u8> {
        self@
    }

    fn write_header(&mut self, name: &str, value: &str) {
        self.extend_from_slice(name.as_bytes());
        self.extend_from_slice(": ".as_bytes());
        self.extend_from_slice(value.as_bytes());
        self.extend_from_slice("\r\n".as_bytes());
        assert(self@ =~= old(self)@ + header_line(name.spec_bytes(), value.spec_bytes()));
    }
}

/// Writes a request line behind what `out` holds.
fn write_request_line(out: &mut Vec<u8>, method: Method, path: &str)
    ensures
        final(out)@ == old(out)@ + request_line(method, path.spec_bytes()),
{
    out.extend_from_slice(method.as_str().as_bytes());
    out.extend_from_slice(" ".as_bytes());
    out.extend_from_slice(path.as_bytes());
    out.extend_from_slice(" ".as_bytes());
    out.extend_from_slice(GURT_VERSION.as_bytes());
    out.extend_from_slice("\r\n".as_bytes());
    assert(out@ =~= old(out)@ + request_line(method, path.spec_bytes()));
}

/// A client on one transport.
///
/// The client owns the transport and lends it out: to a [`ResponseReader`],
/// or to the [`RequestBodyWriter`] of a request whose body is still to be
/// sent. While one of them has it, the client can be used for nothing else.
/// The client builds the bytes of a request; to send them is the caller's
/// part.
pub struct GurtClient<T> {
    /// The transport that requests are sent on and responses are read from.
    pub transport: T,
}

impl<T> GurtClient<T> {
    /// Creates a client on the transport.
    pub fn new(transport: T) -> (client: Self)
        ensures
            client.transport == transport,
    {
        GurtClient { transport }
    }

    /// Builds the handshake, which a session begins with.
    pub fn handshake(&self, host: &str, user_agent: &str) -> (head: Vec<u8>)
        ensures
            head@ == handshake_head(host.spec_bytes(), user_agent.spec_bytes()),
    {
        let mut head: Vec<u8> = Vec::new();
        head.extend_from_slice("HANDSHAKE / ".as_bytes());
        head.extend_from_slice(GURT_VERSION.as_bytes());
        head.extend_from_slice("\r\n".as_bytes());
        proof {
            lemma_handshake_line();
            assert(head@ =~= request_line(Method::Handshake, "/".spec_bytes()));
        }
        head.write_header("host", host);
        head.write_header("user-agent", user_agent);
        head.extend_from_slice("\r\n".as_bytes());
        proof {
            lemma_handshake_lines(host.spec_bytes(), user_agent.spec_bytes());
        }
        head
    }

    /// Lends the transport to a reader of responses.
    pub fn response_reader(&mut self) -> (reader: ResponseReader<'_, T>)
        ensures
            reader.filled() == 0,
            *reader.lent() == old(self).transport,
            *final(reader.lent()) == final(self).transport,
    {
        ResponseReader::new(&mut self.transport)
    }

    /// Builds a request that has no body. Where no user agent is given,
    /// `yo-gurt/0.1` is sent.
    pub fn request_no_body(
        &self,
        method: Method,
        path: &str,
        host: &str,
        user_agent: Option<&str>,
    ) -> (head: Vec<u8>)
        ensures
            head@ == request_head(
                method,
                path.spec_bytes(),
                host.spec_bytes(),
                bytes_or(user_agent, DEFAULT_USER_AGENT),
            ),
    {
        let user_agent = match user_agent {
            Some(given) => given,
            None => DEFAULT_USER_AGENT,
        };
        let mut head: Vec<u8> = Vec::new();
        write_request_line(&mut head, method, path);
        head.write_header("host", host);
        head.write_header("user-agent", user_agent);
        head.extend_from_slice("\r\n".as_bytes());
        proof {
            assert(head@ =~= request_line(method, path.spec_bytes()) + header_line(
                "host".spec_bytes(),
                host.spec_bytes(),
            ) + header_line("user-agent".spec_bytes(), user_agent.spec_bytes())
                + "\r\n".spec_bytes());
            lemma_request_lines(
                method,
                path.spec_bytes(),
                host.spec_bytes(),
                user_agent.spec_bytes(),
            );
        }
        head
    }

    /// Builds the head of a request that has a body of `content_length`
    /// bytes, and lends the transport to the writer of that body. Where no
    /// user agent is given, `yo-gurt/0.1` is sent; where no content type is
    /// given, none is sent.
    pub fn request_with_body<'a>(
        &'a mut self,
        method: Method,
        path: &str,
        host: &str,
        user_agent: Option<&str>,
        content_type: Option<&str>,
        content_length: usize,
    ) -> (request: (Vec<u8>, RequestBodyWriter<'a, T>))
        ensures
            request.0@ == body_request_head(
                method,
                path.spec_bytes(),
                host.spec_bytes(),
                bytes_or(user_agent, DEFAULT_USER_AGENT),
                match content_type {
                    Some(t) => Some(t.spec_bytes()),
                    None => None,
                },
                content_length as nat,
            ),
            *request.1.lent() == old(self).transport,
            *final(request.1.lent()) == final(self).transport,
    {
        let user_agent = match user_agent {
            Some(given) => given,
            None => DEFAULT_USER_AGENT,
        };
        let mut head: Vec<u8> = Vec::new();
        write_request_line(&mut head, method, path);
        head.write_header("host", host);
        if let Some(content_type) = content_type {
            head.write_header("content-type", content_type);
        }
        let ghost typed = head@;
        assert(typed =~= request_line(method, path.spec_bytes()) + header_line(
            "host".spec_bytes(),
            host.spec_bytes(),
        ) + (match content_type {
            Some(t) => header_line("content-type".spec_bytes(), t.spec_bytes()),
            None => Seq::empty(),
        }));
        head.extend_from_slice("content-length: ".as_bytes());
        write_usize(&mut head, content_length);
        head.extend_from_slice("\r\n".as_bytes());
        proof {
            lemma_content_length_name();
            assert(head@ =~= typed + header_line(
                "content-length".spec_bytes(),
                decimal(content_length as nat),
            ));
        }
        head.write_header("user-agent", user_agent);
        head.extend_from_slice("\r\n".as_bytes());
        proof {
            lemma_body_request_lines(
                method,
                path.spec_bytes(),
                host.spec_bytes(),
                user_agent.spec_bytes(),
                match content_type {
                    Some(t) => Some(t.spec_bytes()),
                    None => None,
                },
                content_length as nat,
            );
        }
        (head, RequestBodyWriter { transport: &mut self.transport })
    }
}

/// A handshake is made of lines: the request line of the method `HANDSHAKE`
/// for the path `/`, the headers `host` and `user-agent`, and the empty
/// line.
pub proof fn lemma_handshake_lines(host: Seq<u8>, user_agent: Seq<u8>)
    ensures
        handshake_head(host, user_agent) == request_line(Method::Handshake, "/".spec_bytes())
            + header_line("host".spec_bytes(), host) + header_line(
            "user-agent".spec_bytes(),
            user_agent,
        ) + "\r\n".spec_bytes(),
        handshake_head(host, user_agent) == request_head(
            Method::Handshake,
            "/".spec_bytes(),
            host,
            user_agent,
        ),
{
    lemma_request_lines(Method::Handshake, "/".spec_bytes(), host, user_agent);
    lemma_handshake_start();
}

/// A request without a body is made of lines: the request line, the headers
/// `host` and `user-agent`, and the empty line.
pub proof fn lemma_request_lines(
    method: Method,
    path: Seq<u8>,
    host: Seq<u8>,
    user_agent: Seq<u8>,
)
    ensures
        request_head(method, path, host, user_agent) == request_line(method, path) + header_line(
            "host".spec_bytes(),
            host,
        ) + header_line("user-agent".spec_bytes(), user_agent) + "\r\n".spec_bytes(),
{
    lemma_joints();
    let nl = "\r\n".spec_bytes();
    let begun = start(method, path, host);
    lemma_start(method, path, host);
    let agent = begun + "\r\nuser-agent: ".spec_bytes() + user_agent;
    assert((begun + nl) + header_line("user-agent".spec_bytes(), user_agent) == agent + nl) by {
        lemma_header_joined(begun, nl, "user-agent".spec_bytes(), ": ".spec_bytes(), user_agent);
    }
    lemma_end(agent);
}

/// The head of a request with a body is made of lines: the request line, the
/// headers `host`, `content-type` where a content type is given,
/// `content-length` and `user-agent`, in this order, and the empty line.
pub proof fn lemma_body_request_lines(
    method: Method,
    path: Seq<u8>,
    host: Seq<u8>,
    user_agent: Seq<u8>,
    content_type: Option<Seq<u8>>,
    content_length: nat,
)
    ensures
        body_request_head(method, path, host, user_agent, content_type, content_length)
            == request_line(method, path) + header_line("host".spec_bytes(), host) + (
        match content_type {
            Some(t) => header_line("content-type".spec_bytes(), t),
            None => Seq::empty(),
        }) + header_line("content-length".spec_bytes(), decimal(content_length)) + header_line(
            "user-agent".spec_bytes(),
            user_agent,
        ) + "\r\n".spec_bytes(),
{
    lemma_joints();
    let nl = "\r\n".spec_bytes();
    let begun = start(method, path, host);
    lemma_start(method, path, host);
    let typed = begun + (match content_type {
        Some(t) => "\r\ncontent-type: ".spec_bytes() + t,
        None => Seq::empty(),
    });
    let type_line = match content_type {
        Some(t) => header_line("content-type".spec_bytes(), t),
        None => Seq::empty(),
    };
    assert((begun + nl) + type_line == typed + nl) by {
        match content_type {
            Some(t) => {
                lemma_header_joined(begun, nl, "content-type".spec_bytes(), ": ".spec_bytes(), t);
                assert(begun + "\r\ncontent-type: ".spec_bytes() + t =~= begun + (
                "\r\ncontent-type: ".spec_bytes() + t));
            },
            None => {
                assert((begun + nl) + Seq::<u8>::empty() =~= (begun + Seq::<u8>::empty()) + nl);
            },
        }
    }
    let measured = typed + "\r\ncontent-length: ".spec_bytes() + decimal(content_length);
    assert((typed + nl) + header_line("content-length".spec_bytes(), decimal(content_length))
        == measured + nl) by {
        lemma_header_joined(
            typed,
            nl,
            "content-length".spec_bytes(),
            ": ".spec_bytes(),
            decimal(content_length),
        );
    }
    let agent = measured + "\r\nuser-agent: ".spec_bytes() + user_agent;
    assert((measured + nl) + header_line("user-agent".spec_bytes(), user_agent) == agent + nl)
        by {
        lemma_header_joined(measured, nl, "user-agent".spec_bytes(), ": ".spec_bytes(), user_agent);
    }
    lemma_end(agent);
}

/// The start of every request: the request line and the header `host`,
/// without the terminator of the latter.
spec fn start(method: Method, path: Seq<u8>, host: Seq<u8>) -> Seq<u8> {
    method.wire() + " ".spec_bytes() + path + " GURT/1.0.0\r\nhost: ".spec_bytes() + host
}

/// The request line and the header `host` are the start of the request, and
/// the terminator of the header.
proof fn lemma_start(method: Method, path: Seq<u8>, host: Seq<u8>)
    ensures
        request_line(method, path) + header_line("host".spec_bytes(), host) == start(
            method,
            path,
            host,
        ) + "\r\n".spec_bytes(),
{
    lemma_joints();
    let first = method.wire() + " ".spec_bytes() + path;
    let version = " ".spec_bytes() + GURT_VERSION.spec_bytes();
    let nl = "\r\n".spec_bytes();
    let name = "host".spec_bytes() + ": ".spec_bytes();
    assert(request_line(method, path) =~= first + version + nl);
    assert(header_line("host".spec_bytes(), host) =~= name + host + nl);
    assert((first + version + nl) + (name + host + nl) =~= first + (version + nl + name) + host
        + nl);
    assert(version + nl + name =~= " GURT/1.0.0\r\nhost: ".spec_bytes());
}

/// A header written behind a terminated line: in the text of the request,
/// the terminator stands with the name of the header.
proof fn lemma_header_joined(
    before: Seq<u8>,
    nl: Seq<u8>,
    name: Seq<u8>,
    colon: Seq<u8>,
    value: Seq<u8>,
)
    ensures
        (before + nl) + (name + colon + value + nl) == before + (nl + name + colon) + value + nl,
{
    assert((before + nl) + (name + colon + value + nl) =~= before + (nl + name + colon) + value
        + nl);
}

/// The empty line written behind the last header: in the text of the
/// request, the two terminators stand together.
proof fn lemma_end(before: Seq<u8>)
    ensures
        before + "\r\n".spec_bytes() + "\r\n".spec_bytes() == before + "\r\n\r\n".spec_bytes(),
{
    lemma_joints();
    assert(before + "\r\n".spec_bytes() + "\r\n".spec_bytes() =~= before + ("\r\n".spec_bytes()
        + "\r\n".spec_bytes()));
}

/// `HANDSHAKE / ` is the handshake's token, a space, the path `/` and a
/// space.
proof fn lemma_handshake_line()
    ensures
        "HANDSHAKE / ".spec_bytes() == Method::Handshake.wire() + " ".spec_bytes()
            + "/".spec_bytes() + " ".spec_bytes(),
{
    broadcast use vstd::string::is_ascii_spec_bytes;

    reveal_strlit("HANDSHAKE / ");
    reveal_strlit("HANDSHAKE");
    reveal_strlit(" ");
    reveal_strlit("/");
    assert(vstd::string::is_ascii("HANDSHAKE / "));
    assert(vstd::string::is_ascii("HANDSHAKE"));
    assert(vstd::string::is_ascii(" "));
    assert(vstd::string::is_ascii("/"));
    assert("HANDSHAKE / ".spec_bytes() =~= Method::Handshake.wire() + " ".spec_bytes()
        + "/".spec_bytes() + " ".spec_bytes());
}

/// A handshake starts as the request of the method `HANDSHAKE` for the path
/// `/` does.
proof fn lemma_handshake_start()
    ensures
        "HANDSHAKE / GURT/1.0.0\r\nhost: ".spec_bytes() == Method::Handshake.wire()
            + " ".spec_bytes() + "/".spec_bytes() + " GURT/1.0.0\r\nhost: ".spec_bytes(),
{
    broadcast use vstd::string::is_ascii_spec_bytes;

    reveal_strlit("HANDSHAKE / GURT/1.0.0\r\nhost: ");
    reveal_strlit(" GURT/1.0.0\r\nhost: ");
    reveal_strlit("HANDSHAKE");
    reveal_strlit(" ");
    reveal_strlit("/");
    assert(vstd::string::is_ascii("HANDSHAKE / GURT/1.0.0\r\nhost: "));
    assert(vstd::string::is_ascii(" GURT/1.0.0\r\nhost: "));
    assert(vstd::string::is_ascii("HANDSHAKE"));
    assert(vstd::string::is_ascii(" "));
    assert(vstd::string::is_ascii("/"));
    assert("HANDSHAKE / GURT/1.0.0\r\nhost: ".spec_bytes() =~= Method::Handshake.wire()
        + " ".spec_bytes() + "/".spec_bytes() + " GURT/1.0.0\r\nhost: ".spec_bytes());
}

/// `content-length: ` is the header's name, a colon and a space.
proof fn lemma_content_length_name()
    ensures
        "content-length: ".spec_bytes() == "content-length".spec_bytes() + ": ".spec_bytes(),
{
    broadcast use vstd::string::is_ascii_spec_bytes;

    reveal_strlit("content-length: ");
    reveal_strlit("content-length");
    reveal_strlit(": ");
    assert(vstd::string::is_ascii("content-length: "));
    assert(vstd::string::is_ascii("content-length"));
    assert(vstd::string::is_ascii(": "));
    assert("content-length: ".spec_bytes() =~= "content-length".spec_bytes() + ": ".spec_bytes());
}

/// How the texts between the parts of a request are made up of the line
/// terminator, the names of the headers and the protocol's version.
proof fn lemma_joints()
    ensures
        " GURT/1.0.0\r\nhost: ".spec_bytes() == " ".spec_bytes() + GURT_VERSION.spec_bytes()
            + "\r\n".spec_bytes() + "host".spec_bytes() + ": ".spec_bytes(),
        "\r\nuser-agent: ".spec_bytes() == "\r\n".spec_bytes() + "user-agent".spec_bytes()
            + ": ".spec_bytes(),
        "\r\ncontent-type: ".spec_bytes() == "\r\n".spec_bytes() + "content-type".spec_bytes()
            + ": ".spec_bytes(),
        "\r\ncontent-length: ".spec_bytes() == "\r\n".spec_bytes()
            + "content-length".spec_bytes() + ": ".spec_bytes(),
        "\r\n\r\n".spec_bytes() == "\r\n".spec_bytes() + "\r\n".spec_bytes(),
{
    broadcast use vstd::string::is_ascii_spec_bytes;

    reveal_strlit(" GURT/1.0.0\r\nhost: ");
    reveal_strlit("\r\nuser-agent: ");
    reveal_strlit("\r\ncontent-type: ");
    reveal_strlit("\r\ncontent-length: ");
    reveal_strlit("\r\n\r\n");
    reveal_strlit("GURT/1.0.0");
    reveal_strlit("\r\n");
    reveal_strlit(" ");
    reveal_strlit(": ");
    reveal_strlit("host");
    reveal_strlit("user-agent");
    reveal_strlit("content-type");
    reveal_strlit("content-length");
    assert(vstd::string::is_ascii(" GURT/1.0.0\r\nhost: "));
    assert(vstd::string::is_ascii("\r\nuser-agent: "));
    assert(vstd::string::is_ascii("\r\ncontent-type: "));
    assert(vstd::string::is_ascii("\r\ncontent-length: "));
    assert(vstd::string::is_ascii("\r\n\r\n"));
    assert(vstd::string::is_ascii("GURT/1.0.0"));
    assert(vstd::string::is_ascii("\r\n"));
    assert(vstd::string::is_ascii(" "));
    assert(vstd::string::is_ascii(": "));
    assert(vstd::string::is_ascii("host"));
    assert(vstd::string::is_ascii("user-agent"));
    assert(vstd::string::is_ascii("content-type"));
    assert(vstd::string::is_ascii("content-length"));
    assert(" GURT/1.0.0\r\nhost: ".spec_bytes() =~= " ".spec_bytes() + GURT_VERSION.spec_bytes()
        + "\r\n".spec_bytes() + "host".spec_bytes() + ": ".spec_bytes());
    assert("\r\nuser-agent: ".spec_bytes() =~= "\r\n".spec_bytes() + "user-agent".spec_bytes()
        + ": ".spec_bytes());
    assert("\r\ncontent-type: ".spec_bytes() =~= "\r\n".spec_bytes()
        + "content-type".spec_bytes() + ": ".spec_bytes());
    assert("\r\ncontent-length: ".spec_bytes() =~= "\r\n".spec_bytes()
        + "content-length".spec_bytes() + ": ".spec_bytes());
    assert("\r\n\r\n".spec_bytes() =~= "\r\n".spec_bytes() + "\r\n".spec_bytes());
}

/// Has the transport on loan while the body of a request is sent.
///
/// The writer keeps no count: that the bytes sent are as many as the head
/// declared is the caller's part.
pub struct RequestBodyWriter<'a, T> {
    transport: &'a mut T,
}

impl<'a, T> RequestBodyWriter<'a, T> {
    /// The transport on loan.
    pub closed spec fn lent(&self) -> &'a mut T {
        self.transport
    }

    /// Hands out the transport, for the caller to send the body on.
    pub fn transport(&mut self) -> (transport: &mut T)
        ensures
            *transport == *old(self).lent(),
            *final(self).lent() == *final(transport),
            *final(final(self).lent()) == *final(old(self).lent()),
    {
        &mut *self.transport
    }

    /// Ends the loan: the body is complete, and the transport goes back to
    /// the client as it is. Nothing is sent and nothing is checked.
    pub fn finish(self)
        ensures
            *final(self.lent()) == *self.lent(),
    {
    }
}

} // verus!
