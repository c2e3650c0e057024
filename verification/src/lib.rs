//! Client-side codec for GURT, a text protocol in the manner of HTTP that is
//! carried over an encrypted transport.
//!
//! The crate performs no I/O. It builds the bytes of a request for the caller
//! to send, and it parses a response from what the caller reads, one byte at
//! a time, from the transport.

pub mod decimal;
pub mod protocol;
pub mod request;
pub mod response;
pub mod round_trip;
pub mod stream;

pub use decimal::{parse_u16, write_usize};
pub use protocol::{
    Method, StatusCode, ALPN_IDENTIFIER, DEFAULT_CONNECTION_TIMEOUT_SECS,
    DEFAULT_HANDSHAKE_TIMEOUT_SECS, DEFAULT_PORT, DEFAULT_REQUEST_TIMEOUT_SECS,
    DEFAULT_USER_AGENT, GURT_VERSION, MAX_CONNECTION_POOL_SIZE, MAX_MESSAGE_SIZE,
    POOL_IDLE_TIMEOUT_SECS,
};
pub use request::{GurtClient, HeaderWriter, RequestBodyWriter};
pub use response::{
    parse_header_line, parse_status_line, ReadEvent, ResponseError, ResponseReader, Step,
};
