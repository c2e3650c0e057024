//! A read operation taken as a whole.
//!
//! The reader works one event at a time. This module says what the events of
//! one line add up to, for a transport taken as the bytes it holds and the
//! way it ends, and proves it of the step functions.

use crate::protocol::StatusCode;
use crate::response::{
    buffer_after, filled_after, header_of, scan_step, status_of, ReadEvent, ResponseError, Scan,
    Step, CR, LF,
};
use vstd::prelude::*;

verus! {

/// How the reading of one line ended.
pub struct LineRead<E> {
    /// What the last event meant.
    pub found: Scan<E>,
    /// The caller's buffer at the end.
    pub buf: Seq<u8>,
    /// The number of bytes that were taken from the transport.
    pub taken: int,
}

/// Whether a transport ends in this way: by running out, or by failing.
pub open spec fn is_ending<E>(ending: ReadEvent<E>) -> bool {
    ending is Eof || ending is Failed
}

/// The error that a line meets when the transport ends before it does.
pub open spec fn ending_error<E>(ending: ReadEvent<E>) -> ResponseError<E> {
    match ending {
        ReadEvent::Failed(e) => ResponseError::Io(e),
        _ => ResponseError::UnexpectedEof,
    }
}

/// What the transport answers when it is asked for one byte after `taken`
/// bytes were taken from it: the next of its bytes, or its ending once they
/// are used up.
pub open spec fn event_at<E>(stream: Seq<u8>, ending: ReadEvent<E>, taken: int) -> ReadEvent<E> {
    if 0 <= taken < stream.len() {
        ReadEvent::Byte(stream[taken])
    } else {
        ending
    }
}

/// Follows the scan from a line in progress to its end: one byte is asked of
/// the transport for as long as the scan wants more.
pub open spec fn scan_from<E>(
    stream: Seq<u8>,
    ending: ReadEvent<E>,
    taken: int,
    filled: usize,
    buf: Seq<u8>,
) -> LineRead<E>
    decreases stream.len() - taken,
{
    let event = event_at(stream, ending, taken);
    let found = scan_step(filled, buf, event);
    let next = buffer_after(filled, buf, event);
    if 0 <= taken < stream.len() {
        if found is More {
            scan_from(stream, ending, taken + 1, filled_after(filled, buf, event), next)
        } else {
            LineRead { found, buf: next, taken: taken + 1 }
        }
    } else {
        LineRead { found, buf: next, taken }
    }
}

/// Follows the scan of one line from its start to its end, on a transport
/// that holds the bytes `stream` and then ends with `ending`.
pub open spec fn scan_line<E>(stream: Seq<u8>, ending: ReadEvent<E>, buf: Seq<u8>) -> LineRead<E> {
    let found = scan_step::<E>(0, buf, ReadEvent::Start);
    if found is More {
        scan_from(stream, ending, 0, 0, buf)
    } else {
        LineRead { found, buf, taken: 0 }
    }
}

/// What the reading of a status line gives once the scan of the line has
/// come to its end.
pub open spec fn status_line_read<E>(stream: Seq<u8>, ending: ReadEvent<E>, buf: Seq<u8>) -> Step<
    (StatusCode, usize),
    E,
> {
    let read = scan_line(stream, ending, buf);
    status_of(read.found, read.buf)
}

/// What the reading of a header line gives once the scan of the line has
/// come to its end.
pub open spec fn header_read<E>(stream: Seq<u8>, ending: ReadEvent<E>, buf: Seq<u8>) -> Step<
    Option<(usize, usize, usize, usize)>,
    E,
> {
    let read = scan_line(stream, ending, buf);
    header_of(read.found, read.buf)
}

/// Whether a line terminator ends at index `i` of `s`: a line feed there,
/// directly behind a carriage return.
pub open spec fn terminated_at(s: Seq<u8>, i: int) -> bool {
    1 <= i < s.len() && s[i - 1] == CR && s[i] == LF
}

/// The index at which the first line terminator of `s` ends, looking from
/// `from` on and below `limit`; or `limit` if there is none.
pub open spec fn line_end(s: Seq<u8>, from: int, limit: int) -> int
    decreases limit - from,
{
    if from >= limit {
        limit
    } else if terminated_at(s, from) {
        from
    } else {
        line_end(s, from + 1, limit)
    }
}

/// The smaller of two numbers.
pub open spec fn least(a: int, b: int) -> int {
    if a <= b {
        a
    } else {
        b
    }
}

/// What the reading of one line comes to.
///
/// Where the first line terminator of the stream ends within the buffer's
/// length, the line is complete and the buffer holds it, terminator
/// included. Else the line is refused as too long once the buffer is full,
/// or meets the ending of a transport that holds fewer bytes than that. In
/// each case the bytes taken from the transport are those now in the buffer,
/// and no others.
pub open spec fn line_read<E>(stream: Seq<u8>, ending: ReadEvent<E>, buf: Seq<u8>) -> LineRead<E> {
    let reach = least(stream.len() as int, buf.len() as int);
    let end = line_end(stream, 0, reach);
    if end < reach {
        LineRead {
            found: Scan::Line(end as usize),
            buf: stream.subrange(0, end + 1) + buf.subrange(end + 1, buf.len() as int),
            taken: end + 1,
        }
    } else {
        LineRead {
            found: Scan::Stopped(
                if buf.len() <= stream.len() {
                    ResponseError::BufferTooSmall
                } else {
                    ending_error(ending)
                },
            ),
            buf: stream.subrange(0, reach) + buf.subrange(reach, buf.len() as int),
            taken: reach,
        }
    }
}

/// `line_end` finds the first terminator in its range, if there is one.
pub proof fn lemma_line_end(s: Seq<u8>, from: int, limit: int)
    requires
        0 <= from <= limit <= s.len(),
    ensures
        from <= line_end(s, from, limit) <= limit,
        forall|j: int| from <= j < line_end(s, from, limit) ==> !terminated_at(s, j),
        line_end(s, from, limit) < limit ==> terminated_at(s, line_end(s, from, limit)),
    decreases limit - from,
{
    if from < limit && !terminated_at(s, from) {
        lemma_line_end(s, from + 1, limit);
    }
}

proof fn lemma_scan_from<E>(stream: Seq<u8>, ending: ReadEvent<E>, taken: int, buf: Seq<u8>)
    requires
        is_ending(ending),
        0 <= taken <= stream.len(),
        taken < buf.len() <= usize::MAX,
        taken > 0 ==> buf[taken - 1] == stream[taken - 1],
    ensures
        ({
            let reach = least(stream.len() as int, buf.len() as int);
            let end = line_end(stream, taken, reach);
            let read = scan_from(stream, ending, taken, taken as usize, buf);
            if end < reach {
                &&& read.found == Scan::<E>::Line(end as usize)
                &&& read.buf == buf.subrange(0, taken) + stream.subrange(taken, end + 1)
                    + buf.subrange(end + 1, buf.len() as int)
                &&& read.taken == end + 1
            } else {
                &&& read.found == Scan::Stopped(
                    if buf.len() <= stream.len() {
                        ResponseError::BufferTooSmall
                    } else {
                        ending_error(ending)
                    },
                )
                &&& read.buf == buf.subrange(0, taken) + stream.subrange(taken, reach)
                    + buf.subrange(reach, buf.len() as int)
                &&& read.taken == reach
            }
        }),
    decreases stream.len() - taken,
{
    let reach = least(stream.len() as int, buf.len() as int);
    let event = event_at(stream, ending, taken);
    let found = scan_step(taken as usize, buf, event);
    let next = buffer_after(taken as usize, buf, event);
    if taken < stream.len() {
        assert(next == buf.update(taken, stream[taken]));
        if found is More {
            lemma_scan_from(stream, ending, taken + 1, next);
            lemma_line_end(stream, taken + 1, reach);
            let end = line_end(stream, taken + 1, reach);
            assert(!terminated_at(stream, taken));
            assert(line_end(stream, taken, reach) == end);
            assert(next.subrange(0, taken + 1) =~= buf.subrange(0, taken) + stream.subrange(
                taken,
                taken + 1,
            ));
            if end < reach {
                assert(next.subrange(0, taken + 1) + stream.subrange(taken + 1, end + 1)
                    + next.subrange(end + 1, buf.len() as int) =~= buf.subrange(0, taken)
                    + stream.subrange(taken, end + 1) + buf.subrange(end + 1, buf.len() as int));
            } else {
                assert(next.subrange(0, taken + 1) + stream.subrange(taken + 1, reach)
                    + next.subrange(reach, buf.len() as int) =~= buf.subrange(0, taken)
                    + stream.subrange(taken, reach) + buf.subrange(reach, buf.len() as int));
            }
        } else if found is Line {
            assert(terminated_at(stream, taken));
            assert(next =~= buf.subrange(0, taken) + stream.subrange(taken, taken + 1)
                + buf.subrange(taken + 1, buf.len() as int));
        } else {
            assert(!terminated_at(stream, taken));
            assert(taken + 1 == buf.len());
            assert(line_end(stream, taken + 1, reach) == reach);
            assert(next =~= buf.subrange(0, taken) + stream.subrange(taken, reach) + buf.subrange(
                reach,
                buf.len() as int,
            ));
        }
    } else {
        assert(next =~= buf.subrange(0, taken) + stream.subrange(taken, reach) + buf.subrange(
            reach,
            buf.len() as int,
        ));
    }
}

/// Following the scan event by event comes to what `line_read` says: every
/// line is complete or stopped in the end.
pub proof fn lemma_scan_line<E>(stream: Seq<u8>, ending: ReadEvent<E>, buf: Seq<u8>)
    requires
        is_ending(ending),
        buf.len() <= usize::MAX,
    ensures
        scan_line(stream, ending, buf) == line_read(stream, ending, buf),
        !(scan_line(stream, ending, buf).found is More),
        status_line_read(stream, ending, buf) is Done,
        header_read(stream, ending, buf) is Done,
{
    if buf.len() == 0 {
        assert(buf =~= stream.subrange(0, 0) + buf.subrange(0, 0));
    } else {
        lemma_scan_from(stream, ending, 0, buf);
        let reach = least(stream.len() as int, buf.len() as int);
        let end = line_end(stream, 0, reach);
        if end < reach {
            assert(buf.subrange(0, 0) + stream.subrange(0, end + 1) + buf.subrange(
                end + 1,
                buf.len() as int,
            ) =~= stream.subrange(0, end + 1) + buf.subrange(end + 1, buf.len() as int));
        } else {
            assert(buf.subrange(0, 0) + stream.subrange(0, reach) + buf.subrange(
                reach,
                buf.len() as int,
            ) =~= stream.subrange(0, reach) + buf.subrange(reach, buf.len() as int));
        }
    }
}

/// A line that does not end within the buffer's length is refused as too
/// long, and what was taken from the transport by then is as many bytes as
/// the buffer holds: not one byte more.
pub proof fn lemma_buffer_too_small<E>(stream: Seq<u8>, ending: ReadEvent<E>, buf: Seq<u8>)
    requires
        is_ending(ending),
        buf.len() <= usize::MAX,
        buf.len() <= stream.len(),
        forall|j: int| 0 <= j < buf.len() ==> !terminated_at(stream, j),
    ensures
        scan_line(stream, ending, buf).found == Scan::<E>::Stopped(ResponseError::BufferTooSmall),
        scan_line(stream, ending, buf).taken == buf.len(),
        scan_line(stream, ending, buf).buf == stream.subrange(0, buf.len() as int),
        status_line_read(stream, ending, buf) == Step::<(StatusCode, usize), E>::Done(
            Err(ResponseError::BufferTooSmall),
        ),
        header_read(stream, ending, buf) == Step::<Option<(usize, usize, usize, usize)>, E>::Done(
            Err(ResponseError::BufferTooSmall),
        ),
{
    lemma_scan_line(stream, ending, buf);
    lemma_line_end(stream, 0, buf.len() as int);
    assert(stream.subrange(0, buf.len() as int) + buf.subrange(buf.len() as int, buf.len() as int)
        =~= stream.subrange(0, buf.len() as int));
}

/// A line that ends within the buffer's length is read whole: the bytes
/// taken from the transport are those of the line and its terminator, they
/// stand at the start of the buffer, and the rest of the buffer is as it
/// was.
pub proof fn lemma_line_complete<E>(
    stream: Seq<u8>,
    ending: ReadEvent<E>,
    buf: Seq<u8>,
    end: int,
)
    requires
        is_ending(ending),
        buf.len() <= usize::MAX,
        end < buf.len(),
        terminated_at(stream, end),
        forall|j: int| 0 <= j < end ==> !terminated_at(stream, j),
    ensures
        scan_line(stream, ending, buf) == (LineRead {
            found: Scan::<E>::Line(end as usize),
            buf: stream.subrange(0, end + 1) + buf.subrange(end + 1, buf.len() as int),
            taken: end + 1,
        }),
{
    lemma_scan_line(stream, ending, buf);
    lemma_line_end(stream, 0, least(stream.len() as int, buf.len() as int));
}

/// A transport that ends before the line does, with room left in the buffer,
/// stops the line with its ending: `UnexpectedEof` where it ran out, its own
/// error where it failed.
pub proof fn lemma_transport_ends<E>(stream: Seq<u8>, ending: ReadEvent<E>, buf: Seq<u8>)
    requires
        is_ending(ending),
        buf.len() <= usize::MAX,
        stream.len() < buf.len(),
        forall|j: int| 0 <= j < stream.len() ==> !terminated_at(stream, j),
    ensures
        scan_line(stream, ending, buf).found == Scan::Stopped(ending_error(ending)),
        scan_line(stream, ending, buf).taken == stream.len(),
        status_line_read(stream, ending, buf) == Step::<(StatusCode, usize), E>::Done(
            Err(ending_error(ending)),
        ),
        header_read(stream, ending, buf) == Step::<Option<(usize, usize, usize, usize)>, E>::Done(
            Err(ending_error(ending)),
        ),
{
    lemma_scan_line(stream, ending, buf);
    lemma_line_end(stream, 0, stream.len() as int);
}

} // verus!
