//! What is written on the wire is read back as it was meant: the laws that
//! tie the encoder's lines to the reader's parsing.

use crate::decimal::{all_digits, decimal, decimal_value, lemma_decimal_round_trip};
use crate::protocol::{lemma_status_round_trip, StatusCode, GURT_VERSION};
use crate::request::header_line;
use crate::response::{
    header_spans, is_position, lemma_position, status_line_result, ReadEvent, ResponseError, Step,
    COLON, CR, LF, SP,
};
use crate::stream::{
    header_read, is_ending, lemma_line_complete, scan_line, status_line_read, terminated_at,
};
use vstd::prelude::*;
use vstd::string::StringSliceAdditionalSpecFns;

verus! {

/// A status line as a server writes it, without its terminator: the
/// protocol's version, the number of the status in decimal, and a reason,
/// with one space between them.
pub open spec fn status_line(status: StatusCode, reason: Seq<u8>) -> Seq<u8> {
    GURT_VERSION.spec_bytes() + " ".spec_bytes() + decimal(status.code() as nat) + " ".spec_bytes()
        + reason
}

/// A header line without its terminator.
pub open spec fn header_text(name: Seq<u8>, value: Seq<u8>) -> Seq<u8> {
    name + ": ".spec_bytes() + value
}

/// Whether `s` holds no line terminator.
pub open spec fn unbroken(s: Seq<u8>) -> bool {
    forall|j: int| 0 <= j < s.len() ==> !terminated_at(s, j)
}

/// The bytes of the fixed texts of a line.
pub proof fn lemma_fixed_texts()
    ensures
        GURT_VERSION.spec_bytes().len() == 10,
        forall|i: int|
            0 <= i < 10 ==> {
                let b = #[trigger] GURT_VERSION.spec_bytes()[i];
                b != SP && b != CR && b != LF
            },
        " ".spec_bytes() == seq![SP],
        ": ".spec_bytes() == seq![COLON, SP],
        "\r\n".spec_bytes() == seq![CR, LF],
{
    broadcast use vstd::string::is_ascii_spec_bytes;

    reveal_strlit("GURT/1.0.0");
    reveal_strlit(" ");
    reveal_strlit(": ");
    reveal_strlit("\r\n");
    assert(vstd::string::is_ascii("GURT/1.0.0"));
    assert(vstd::string::is_ascii(" "));
    assert(vstd::string::is_ascii(": "));
    assert(vstd::string::is_ascii("\r\n"));
    assert(" ".spec_bytes() =~= seq![SP]);
    assert(": ".spec_bytes() =~= seq![COLON, SP]);
    assert("\r\n".spec_bytes() =~= seq![CR, LF]);
}

/// Whether `s` holds no space.
pub open spec fn spaceless(s: Seq<u8>) -> bool {
    forall|i: int| 0 <= i < s.len() ==> s[i] != SP
}

/// What a status line of two tokens or more means, by its tokens: it is of
/// another protocol unless the first token is this protocol's version, and
/// it is invalid unless the second token is the number of a status. What
/// stands behind the second token plays no part.
pub proof fn lemma_status_line_tokens<E>(first: Seq<u8>, second: Seq<u8>, tail: Seq<u8>)
    requires
        spaceless(first),
        spaceless(second),
        tail.len() == 0 || tail[0] == SP,
    ensures
        status_line_result::<E>(first + seq![SP] + second + tail) == (if first
            != GURT_VERSION.spec_bytes() {
            Err::<StatusCode, _>(ResponseError::<E>::InvalidProtocol)
        } else if all_digits(second) && decimal_value(second) <= u16::MAX {
            match StatusCode::with_code(decimal_value(second) as u16) {
                Some(status) => Ok(status),
                None => Err(ResponseError::InvalidStatusLine),
            }
        } else {
            Err(ResponseError::InvalidStatusLine)
        }),
{
    let line = first + seq![SP] + second + tail;
    lemma_position(line, SP);
    assert(is_position(line, SP, first.len() as int)) by {
        assert forall|j: int| 0 <= j < first.len() implies line[j] != SP by {
            assert(line[j] == first[j]);
        }
    }
    assert(line.subrange(0, first.len() as int) =~= first);
    let rest = line.subrange((first.len() + 1) as int, line.len() as int);
    assert(rest =~= second + tail);
    lemma_position(rest, SP);
    assert(is_position(rest, SP, second.len() as int)) by {
        assert forall|j: int| 0 <= j < second.len() implies rest[j] != SP by {
            assert(rest[j] == second[j]);
        }
    }
    assert(rest.subrange(0, second.len() as int) =~= second);
}

/// A status line of one token is of another protocol unless the token is
/// this protocol's version, and is invalid then, for want of a number.
pub proof fn lemma_status_line_one_token<E>(first: Seq<u8>)
    requires
        spaceless(first),
    ensures
        status_line_result::<E>(first) == (if first != GURT_VERSION.spec_bytes() {
            Err::<StatusCode, _>(ResponseError::<E>::InvalidProtocol)
        } else {
            Err(ResponseError::InvalidStatusLine)
        }),
{
    lemma_position(first, SP);
    assert(is_position(first, SP, first.len() as int));
    assert(first.subrange(0, first.len() as int) =~= first);
}

/// A status line is parsed to the status that it was written for, whatever
/// the reason says.
pub proof fn lemma_status_line_round_trip<E>(status: StatusCode, reason: Seq<u8>)
    ensures
        status_line_result::<E>(status_line(status, reason)) == Ok::<_, ResponseError<E>>(status),
{
    lemma_fixed_texts();
    lemma_decimal_round_trip(status.code() as nat);
    lemma_status_round_trip(status);
    let version = GURT_VERSION.spec_bytes();
    let digits = decimal(status.code() as nat);
    assert(spaceless(version));
    assert(spaceless(digits));
    lemma_status_line_tokens::<E>(version, digits, seq![SP] + reason);
    assert(status_line(status, reason) =~= version + seq![SP] + digits + (seq![SP] + reason));
}

/// A status line holds no line terminator if its reason holds none.
proof fn lemma_status_line_unbroken(status: StatusCode, reason: Seq<u8>)
    requires
        unbroken(reason),
    ensures
        unbroken(status_line(status, reason)),
{
    lemma_fixed_texts();
    lemma_decimal_round_trip(status.code() as nat);
    let version = GURT_VERSION.spec_bytes();
    let digits = decimal(status.code() as nat);
    let line = status_line(status, reason);
    let head = version + seq![SP] + digits + seq![SP];
    assert(line =~= head + reason);
    assert forall|j: int| 0 <= j < head.len() implies line[j] != LF && line[j] != CR by {
        if j < 10 {
            assert(line[j] == version[j]);
        } else if 11 <= j < 11 + digits.len() {
            assert(line[j] == digits[j - 11]);
        }
    }
    assert forall|j: int| 0 <= j < line.len() implies !terminated_at(line, j) by {
        if j > head.len() {
            assert(!terminated_at(reason, j - head.len()));
            assert(line[j] == reason[j - head.len()]);
            assert(line[j - 1] == reason[j - head.len() - 1]);
        }
    }
}

/// Reading a status line from the transport gives the status that the line
/// was written for, and takes from the transport the bytes of the line and
/// its terminator: none of what follows them.
pub proof fn lemma_read_status_line<E>(
    status: StatusCode,
    reason: Seq<u8>,
    following: Seq<u8>,
    ending: ReadEvent<E>,
    buf: Seq<u8>,
)
    requires
        is_ending(ending),
        unbroken(reason),
        status_line(status, reason).len() + 2 <= buf.len() <= usize::MAX,
    ensures
        ({
            let line = status_line(status, reason);
            let stream = line + "\r\n".spec_bytes() + following;
            let read = scan_line(stream, ending, buf);
            &&& status_line_read(stream, ending, buf) == Step::<(StatusCode, usize), E>::Done(
                Ok((status, (line.len() + 2) as usize)),
            )
            &&& read.taken == line.len() + 2
            &&& read.buf == line + "\r\n".spec_bytes() + buf.subrange(
                (line.len() + 2) as int,
                buf.len() as int,
            )
        }),
{
    lemma_fixed_texts();
    let line = status_line(status, reason);
    let stream = line + "\r\n".spec_bytes() + following;
    let end = (line.len() + 1) as int;
    lemma_status_line_unbroken(status, reason);
    assert forall|j: int| 0 <= j < end implies !terminated_at(stream, j) by {
        if 1 <= j < line.len() {
            assert(!terminated_at(line, j));
            assert(stream[j] == line[j] && stream[j - 1] == line[j - 1]);
        }
    }
    lemma_line_complete(stream, ending, buf, end);
    let read = scan_line(stream, ending, buf);
    assert(read.buf.subrange(0, end - 1) =~= line);
    assert(stream.subrange(0, end + 1) =~= line + "\r\n".spec_bytes());
    lemma_status_line_round_trip::<E>(status, reason);
}

/// A header line is parsed to the spans of the name and the value that it
/// was written from, the space behind the colon left out, if the name holds
/// no colon.
pub proof fn lemma_header_round_trip(name: Seq<u8>, value: Seq<u8>)
    requires
        forall|i: int| 0 <= i < name.len() ==> name[i] != COLON,
    ensures
        header_line(name, value) == header_text(name, value) + "\r\n".spec_bytes(),
        header_spans(header_text(name, value)) == Some(
            (name.len() as int, (name.len() + 2) as int, value.len() as int),
        ),
{
    lemma_fixed_texts();
    let line = header_text(name, value);
    lemma_position(line, COLON);
    assert(is_position(line, COLON, name.len() as int)) by {
        assert forall|j: int| 0 <= j < name.len() implies line[j] != COLON by {
            assert(line[j] == name[j]);
        }
    }
    assert(line[(name.len() + 1) as int] == SP);
}

/// A header line that holds no colon has no spans: it is rejected.
pub proof fn lemma_header_without_colon(line: Seq<u8>)
    requires
        forall|i: int| 0 <= i < line.len() ==> line[i] != COLON,
    ensures
        header_spans(line) is None,
{
    lemma_position(line, COLON);
    assert(is_position(line, COLON, line.len() as int));
}

/// Reading a header line from the transport gives the spans of the name and
/// the value in the buffer, and takes from the transport the bytes of the
/// line and its terminator: none of what follows them.
pub proof fn lemma_read_header<E>(
    name: Seq<u8>,
    value: Seq<u8>,
    following: Seq<u8>,
    ending: ReadEvent<E>,
    buf: Seq<u8>,
)
    requires
        is_ending(ending),
        forall|i: int| 0 <= i < name.len() ==> name[i] != COLON,
        unbroken(header_text(name, value)),
        header_text(name, value).len() + 2 <= buf.len() <= usize::MAX,
    ensures
        ({
            let line = header_text(name, value);
            let stream = header_line(name, value) + following;
            let read = scan_line(stream, ending, buf);
            &&& header_read(stream, ending, buf) == Step::<
                Option<(usize, usize, usize, usize)>,
                E,
            >::Done(
                Ok(
                    Some(
                        (
                            name.len() as usize,
                            (name.len() + 2) as usize,
                            value.len() as usize,
                            (line.len() + 2) as usize,
                        ),
                    ),
                ),
            )
            &&& read.taken == line.len() + 2
            &&& read.buf.subrange(0, name.len() as int) == name
            &&& read.buf.subrange(
                (name.len() + 2) as int,
                (name.len() + 2 + value.len()) as int,
            ) == value
        }),
{
    lemma_fixed_texts();
    lemma_header_round_trip(name, value);
    let line = header_text(name, value);
    let stream = header_line(name, value) + following;
    let end = (line.len() + 1) as int;
    assert forall|j: int| 0 <= j < end implies !terminated_at(stream, j) by {
        if 1 <= j < line.len() {
            assert(!terminated_at(line, j));
            assert(stream[j] == line[j] && stream[j - 1] == line[j - 1]);
        }
    }
    lemma_line_complete(stream, ending, buf, end);
    let read = scan_line(stream, ending, buf);
    assert(read.buf.subrange(0, end - 1) =~= line);
    assert(read.buf.subrange(0, name.len() as int) =~= name);
    assert(read.buf.subrange(
        (name.len() + 2) as int,
        (name.len() + 2 + value.len()) as int,
    ) =~= value);
}

/// The empty line that ends the headers is read as the end of the headers,
/// and takes its two bytes from the transport: none of the body behind it.
pub proof fn lemma_read_end_of_headers<E>(
    following: Seq<u8>,
    ending: ReadEvent<E>,
    buf: Seq<u8>,
)
    requires
        is_ending(ending),
        2 <= buf.len() <= usize::MAX,
    ensures
        ({
            let stream = "\r\n".spec_bytes() + following;
            let read = scan_line(stream, ending, buf);
            &&& header_read(stream, ending, buf) == Step::<
                Option<(usize, usize, usize, usize)>,
                E,
            >::Done(Ok(None))
            &&& read.taken == 2
        }),
{
    lemma_fixed_texts();
    let stream = "\r\n".spec_bytes() + following;
    lemma_line_complete(stream, ending, buf, 1);
}

} // verus!
