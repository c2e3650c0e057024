//! Parsing a response: the status line, the header lines, and the scanner
//! that finds where a line ends.
//!
//! A line is read from the transport one byte at a time, so that nothing
//! beyond its terminator is consumed. The reading itself is the caller's:
//! [`ResponseReader`] says when one more byte is needed and what a line
//! means once it is complete.

use crate::decimal::{all_digits, decimal_value, parse_u16};
use crate::protocol::{bytes_eq, StatusCode, GURT_VERSION};
use vstd::prelude::*;
use vstd::slice::slice_subrange;
use vstd::string::StringSliceAdditionalSpecFns;

verus! {

/// The carriage return that opens a line terminator.
pub const CR: u8 = 13;

/// The line feed that closes a line terminator.
pub const LF: u8 = 10;

/// The space between the tokens of a status line.
pub const SP: u8 = 32;

/// The colon between the name and the value of a header.
pub const COLON: u8 = 58;

/// Why a response could not be read.
#[derive(Debug)]
pub enum ResponseError<E> {
    /// The transport failed.
    Io(E),
    /// The transport ended before the line did.
    UnexpectedEof,
    /// The line does not fit in the caller's buffer.
    BufferTooSmall,
    /// The status line does not open with this protocol's version.
    InvalidProtocol,
    /// The status line has no number, or one that is no status.
    InvalidStatusLine,
    /// The header line has no colon.
    InvalidHeader,
}

/// The index of the first `b` in `s`, or the length of `s` if it has none.
pub open spec fn position(s: Seq<u8>, b: u8) -> int
    decreases s.len(),
{
    if s.len() == 0 {
        0
    } else if s[0] == b {
        0
    } else {
        1 + position(s.drop_first(), b)
    }
}

/// Whether `i` is where the first `b` of `s` stands, or the length of `s` if
/// it has none.
pub open spec fn is_position(s: Seq<u8>, b: u8, i: int) -> bool {
    &&& 0 <= i <= s.len()
    &&& forall|j: int| 0 <= j < i ==> s[j] != b
    &&& i < s.len() ==> s[i] == b
}

/// `position` finds the first occurrence, and nothing else is one.
pub proof fn lemma_position(s: Seq<u8>, b: u8)
    ensures
        is_position(s, b, position(s, b)),
        forall|i: int| is_position(s, b, i) ==> i == position(s, b),
    decreases s.len(),
{
    if s.len() > 0 && s[0] != b {
        let rest = s.drop_first();
        lemma_position(rest, b);
        let p = position(rest, b);
        assert forall|j: int| 0 <= j < 1 + p implies s[j] != b by {
            if j > 0 {
                assert(rest[j - 1] == s[j]);
            }
        }
        if p < rest.len() {
            assert(rest[p] == s[p + 1]);
        }
    }
    assert forall|i: int| is_position(s, b, i) implies i == position(s, b) by {
        let p = position(s, b);
        if i < p {
            assert(s[i] == b);
        } else if p < i {
            assert(s[p] == b);
        }
    }
}

/// Finds the first `b` in `s`.
pub fn find_byte(s: &[u8], b: u8) -> (i: usize)
    ensures
        i == position(s@, b),
        is_position(s@, b, i as int),
{
    let mut i: usize = 0;
    while i < s.len() && s[i] != b
        invariant
            i <= s@.len(),
            forall|j: int| 0 <= j < i ==> s@[j] != b,
        decreases s@.len() - i,
    {
        i += 1;
    }
    proof {
        lemma_position(s@, b);
        assert(is_position(s@, b, i as int));
    }
    i
}

/// What a status line means, the line taken without its terminator.
///
/// The bytes before the first space must be the protocol's version. The bytes
/// between that space and the next one, or the end of the line, must be
/// decimal digits that number a status. What follows is not looked at.
pub open spec fn status_line_result<E>(line: Seq<u8>) -> Result<StatusCode, ResponseError<E>> {
    let space = position(line, SP);
    if line.subrange(0, space) != GURT_VERSION.spec_bytes() {
        Err(ResponseError::InvalidProtocol)
    } else if space == line.len() {
        Err(ResponseError::InvalidStatusLine)
    } else {
        let rest = line.subrange(space + 1, line.len() as int);
        let token = rest.subrange(0, position(rest, SP));
        if all_digits(token) && decimal_value(token) <= u16::MAX {
            match StatusCode::with_code(decimal_value(token) as u16) {
                Some(status) => Ok(status),
                None => Err(ResponseError::InvalidStatusLine),
            }
        } else {
            Err(ResponseError::InvalidStatusLine)
        }
    }
}

/// Parses a status line, handed over without its terminator.
pub fn parse_status_line<E>(line: &[u8]) -> (status: Result<StatusCode, ResponseError<E>>)
    ensures
        status == status_line_result::<E>(line@),
{
    let space = find_byte(line, SP);
    if !bytes_eq(slice_subrange(line, 0, space), GURT_VERSION.as_bytes()) {
        return Err(ResponseError::InvalidProtocol);
    }
    if space == line.len() {
        return Err(ResponseError::InvalidStatusLine);
    }
    let rest = slice_subrange(line, space + 1, line.len());
    let token = slice_subrange(rest, 0, find_byte(rest, SP));
    let code = match parse_u16(token) {
        Some(code) => code,
        None => {
            return Err(ResponseError::InvalidStatusLine);
        },
    };
    match StatusCode::from_u16(code) {
        Some(status) => Ok(status),
        None => Err(ResponseError::InvalidStatusLine),
    }
}

/// Where the name and the value of a header stand in its line, the line taken
/// without its terminator: the length of the name, the index at which the
/// value starts, and the length of the value. `None` where the line has no
/// colon.
///
/// The name is what stands before the first colon. The value is what stands
/// after it, without the one space that may follow the colon.
pub open spec fn header_spans(line: Seq<u8>) -> Option<(int, int, int)> {
    let colon = position(line, COLON);
    if colon == line.len() {
        None
    } else {
        let value_start = if colon + 1 < line.len() && line[colon + 1] == SP {
            colon + 2
        } else {
            colon + 1
        };
        Some((colon, value_start, line.len() - value_start))
    }
}

/// Parses a header line, handed over without its terminator, into the length
/// of the name, the index at which the value starts and the length of the
/// value.
pub fn parse_header_line<E>(line: &[u8]) -> (spans: Result<
    (usize, usize, usize),
    ResponseError<E>,
>)
    ensures
        match header_spans(line@) {
            Some((name_len, value_start, value_len)) => spans == Ok::<_, ResponseError<E>>(
                (name_len as usize, value_start as usize, value_len as usize),
            ),
            None => spans == Err::<(usize, usize, usize), _>(ResponseError::<E>::InvalidHeader),
        },
{
    let colon = find_byte(line, COLON);
    if colon == line.len() {
        return Err(ResponseError::InvalidHeader);
    }
    let mut value_start = colon + 1;
    if value_start < line.len() && line[value_start] == SP {
        value_start += 1;
    }
    Ok((colon, value_start, line.len() - value_start))
}

/// What the transport did when it was asked for exactly one byte.
#[derive(Debug)]
pub enum ReadEvent<E> {
    /// Nothing was asked of the transport yet: a new line begins.
    Start,
    /// The transport gave this byte.
    Byte(u8),
    /// The transport ended.
    Eof,
    /// The transport failed.
    Failed(E),
}

/// What the caller of a read operation does next.
#[derive(Debug)]
pub enum Step<R, E> {
    /// Read exactly one byte from the transport and hand what happened to the
    /// same operation, with the same buffer.
    NeedByte,
    /// The operation is over.
    Done(Result<R, ResponseError<E>>),
}

/// How far the scan for the end of a line has come.
#[derive(Debug)]
pub enum Scan<E> {
    /// The line goes on.
    More,
    /// The line is complete. Its terminator ends at this index of the buffer.
    Line(usize),
    /// No line will be had.
    Stopped(ResponseError<E>),
}

/// The buffer after an event: a byte is stored behind the `filled` bytes that
/// the line has so far, if there is room for it, and nothing else changes.
pub open spec fn buffer_after<E>(filled: usize, buf: Seq<u8>, event: ReadEvent<E>) -> Seq<u8> {
    match event {
        ReadEvent::Byte(b) if filled < buf.len() => buf.update(filled as int, b),
        _ => buf,
    }
}

/// What an event means for the line in progress, of which `filled` bytes
/// stand at the start of `buf`.
///
/// A line is complete as soon as a line feed is stored directly behind a
/// carriage return. A byte is only asked for while the buffer has room for
/// it, and a byte that comes without room is not stored.
pub open spec fn scan_step<E>(filled: usize, buf: Seq<u8>, event: ReadEvent<E>) -> Scan<E> {
    match event {
        ReadEvent::Start => if buf.len() == 0 {
            Scan::Stopped(ResponseError::BufferTooSmall)
        } else {
            Scan::More
        },
        ReadEvent::Eof => Scan::Stopped(ResponseError::UnexpectedEof),
        ReadEvent::Failed(e) => Scan::Stopped(ResponseError::Io(e)),
        ReadEvent::Byte(b) => if filled >= buf.len() {
            Scan::Stopped(ResponseError::BufferTooSmall)
        } else if filled > 0 && buf[filled - 1] == CR && b == LF {
            Scan::Line(filled)
        } else if filled + 1 >= buf.len() {
            Scan::Stopped(ResponseError::BufferTooSmall)
        } else {
            Scan::More
        },
    }
}

/// How many bytes of the line in progress the buffer holds after an event.
/// Nothing is kept of a line that is complete or has failed.
pub open spec fn filled_after<E>(filled: usize, buf: Seq<u8>, event: ReadEvent<E>) -> usize {
    match (scan_step(filled, buf, event), event) {
        (Scan::More, ReadEvent::Byte(_)) => (filled + 1) as usize,
        _ => 0,
    }
}

/// What the scan of a status line amounts to, `buf` being the buffer as the
/// scan left it: once the line is complete, the status and the number of
/// bytes that the line took from the transport, terminator included.
pub open spec fn status_of<E>(found: Scan<E>, buf: Seq<u8>) -> Step<(StatusCode, usize), E> {
    match found {
        Scan::More => Step::NeedByte,
        Scan::Stopped(e) => Step::Done(Err(e)),
        Scan::Line(end) => Step::Done(
            match status_line_result::<E>(buf.subrange(0, end - 1)) {
                Ok(status) => Ok((status, (end + 1) as usize)),
                Err(e) => Err(e),
            },
        ),
    }
}

/// What the scan of a header line amounts to, `buf` being the buffer as the
/// scan left it. Once the line is complete: `None` for the empty line that
/// ends the headers, else the length of the name, the index at which the
/// value starts, the length of the value, and the number of bytes that the
/// line took from the transport, terminator included.
pub open spec fn header_of<E>(found: Scan<E>, buf: Seq<u8>) -> Step<
    Option<(usize, usize, usize, usize)>,
    E,
> {
    match found {
        Scan::More => Step::NeedByte,
        Scan::Stopped(e) => Step::Done(Err(e)),
        Scan::Line(end) => Step::Done(
            if end == 1 {
                Ok(None)
            } else {
                match header_spans(buf.subrange(0, end - 1)) {
                    Some((name_len, value_start, value_len)) => Ok(
                        Some(
                            (
                                name_len as usize,
                                value_start as usize,
                                value_len as usize,
                                (end + 1) as usize,
                            ),
                        ),
                    ),
                    None => Err(ResponseError::InvalidHeader),
                }
            },
        ),
    }
}

/// Reads a response from a transport that it has on loan.
///
/// The reader never touches the transport. Each read operation is a step
/// function: it is first handed [`ReadEvent::Start`], and then, for as long
/// as it answers [`Step::NeedByte`], what the transport did when the caller
/// asked it for one byte. The bytes of the line are stored in the caller's
/// buffer, and a result speaks of them by index.
pub struct ResponseReader<'a, T> {
    transport: &'a mut T,
    pos: usize,
}

impl<'a, T> ResponseReader<'a, T> {
    /// The transport on loan.
    pub closed spec fn lent(&self) -> &'a mut T {
        self.transport
    }

    /// The number of bytes of the line in progress that the buffer holds.
    pub closed spec fn filled(&self) -> usize {
        self.pos
    }

    /// Creates a reader on the transport, with no line in progress.
    pub fn new(transport: &'a mut T) -> (reader: Self)
        ensures
            reader.filled() == 0,
            *reader.lent() == *old(transport),
            *final(reader.lent()) == *final(transport),
    {
        ResponseReader { transport, pos: 0 }
    }

    /// Hands out the transport, for the caller to read from.
    pub fn transport(&mut self) -> (transport: &mut T)
        ensures
            *transport == *old(self).lent(),
            *final(self).lent() == *final(transport),
            *final(final(self).lent()) == *final(old(self).lent()),
            final(self).filled() == old(self).filled(),
    {
        &mut *self.transport
    }

    /// Takes one event of the line in progress.
    fn advance<E>(&mut self, buf: &mut [u8], event: ReadEvent<E>) -> (found: Scan<E>)
        ensures
            found == scan_step(old(self).filled(), old(buf)@, event),
            final(buf)@ == buffer_after(old(self).filled(), old(buf)@, event),
            final(self).filled() == filled_after(old(self).filled(), old(buf)@, event),
            final(self).lent() == old(self).lent(),
            found matches Scan::Line(end) ==> 0 < end < old(buf)@.len(),
    {
        let pos = self.pos;
        self.pos = 0;
        match event {
            ReadEvent::Start => {
                if buf.len() == 0 {
                    Scan::Stopped(ResponseError::BufferTooSmall)
                } else {
                    Scan::More
                }
            },
            ReadEvent::Eof => Scan::Stopped(ResponseError::UnexpectedEof),
            ReadEvent::Failed(e) => Scan::Stopped(ResponseError::Io(e)),
            ReadEvent::Byte(b) => {
                if pos >= buf.len() {
                    return Scan::Stopped(ResponseError::BufferTooSmall);
                }
                buf[pos] = b;
                if pos > 0 && buf[pos - 1] == CR && b == LF {
                    Scan::Line(pos)
                } else if pos + 1 >= buf.len() {
                    Scan::Stopped(ResponseError::BufferTooSmall)
                } else {
                    self.pos = pos + 1;
                    Scan::More
                }
            },
        }
    }

    /// Reads the status line of a response into `buf`, one event at a time.
    ///
    /// Once the line is complete, the step is done with the status and the
    /// number of bytes that the line took from the transport. It is done with
    /// `InvalidProtocol` where the line does not open with the protocol's
    /// version, with `InvalidStatusLine` where no number of a status follows,
    /// with `BufferTooSmall` where `buf` is full before the line ends, with
    /// `UnexpectedEof` where the transport ends first, and with the
    /// transport's own error where it fails.
    pub fn read_status_line<E>(&mut self, buf: &mut [u8], event: ReadEvent<E>) -> (step: Step<
        (StatusCode, usize),
        E,
    >)
        ensures
            step == status_of(scan_step(old(self).filled(), old(buf)@, event), final(buf)@),
            final(buf)@ == buffer_after(old(self).filled(), old(buf)@, event),
            final(self).filled() == filled_after(old(self).filled(), old(buf)@, event),
            final(self).lent() == old(self).lent(),
    {
        match self.advance(buf, event) {
            Scan::More => Step::NeedByte,
            Scan::Stopped(e) => Step::Done(Err(e)),
            Scan::Line(end) => {
                let line = slice_subrange(buf, 0, end - 1);
                assert(end < buf.len());
                match parse_status_line(line) {
                    Ok(status) => Step::Done(Ok((status, end + 1))),
                    Err(e) => Step::Done(Err(e)),
                }
            },
        }
    }

    /// Reads one header line of a response into `buf`, one event at a time.
    ///
    /// Once the line is complete, the step is done with `None` where the line
    /// is empty, which ends the headers. Else it is done with the length of
    /// the name, the index in `buf` at which the value starts, the length of
    /// the value and the number of bytes that the line took from the
    /// transport; or with `InvalidHeader` where the line has no colon. The
    /// other failures are those of a status line.
    pub fn read_header<E>(&mut self, buf: &mut [u8], event: ReadEvent<E>) -> (step: Step<
        Option<(usize, usize, usize, usize)>,
        E,
    >)
        ensures
            step == header_of(scan_step(old(self).filled(), old(buf)@, event), final(buf)@),
            final(buf)@ == buffer_after(old(self).filled(), old(buf)@, event),
            final(self).filled() == filled_after(old(self).filled(), old(buf)@, event),
            final(self).lent() == old(self).lent(),
    {
        match self.advance(buf, event) {
            Scan::More => Step::NeedByte,
            Scan::Stopped(e) => Step::Done(Err(e)),
            Scan::Line(end) => {
                if end == 1 {
                    return Step::Done(Ok(None));
                }
                let line = slice_subrange(buf, 0, end - 1);
                assert(end < buf.len());
                match parse_header_line(line) {
                    Ok((name_len, value_start, value_len)) => Step::Done(
                        Ok(Some((name_len, value_start, value_len, end + 1))),
                    ),
                    Err(e) => Step::Done(Err(e)),
                }
            },
        }
    }
}

} // verus!
