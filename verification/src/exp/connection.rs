//! Framing of the meta protocol on a byte stream: how responses are cut out
//! of the bytes received, how a payload is written out, and when a connection
//! can be used again. The transports move the bytes.

use vstd::prelude::*;
use vstd::string::*;

use super::batch;
use super::error;
use super::error::{Error, ErrorView};
use super::meta_command;
use super::meta_command::{MetaCommand, MetaCommandView, MetaResponse, MetaResponseView};
use crate::bytes;
use crate::io;
use crate::io::{IoError, IoErrorKind};
use crate::time::{Duration, SystemTime};

verus! {

/// The position of the first line feed, or the length where there is none.
pub open spec fn line_end(bytes: Seq<u8>) -> nat
    decreases bytes.len(),
{
    if bytes.len() == 0 || bytes[0] == 10 {
        0
    } else {
        1 + line_end(bytes.skip(1))
    }
}

/// The line that ends before position `end`: one carriage return before the
/// line feed is no part of it.
pub open spec fn line_before(bytes: Seq<u8>, end: int) -> Seq<u8> {
    if end > 0 && bytes[end - 1] == 13 {
        bytes.take(end - 1)
    } else {
        bytes.take(end)
    }
}

/// The first response in the bytes received, or why it is none, with the number
/// of bytes that it takes up: the line, and the data block where the line
/// announces one. None while more bytes are needed.
pub open spec fn framed(received: Seq<u8>) -> Option<Result<(MetaResponseView, nat), (ErrorView, nat)>> {
    let end = line_end(received) as int;
    if end == received.len() {
        None
    } else {
        match meta_command::header(line_before(received, end)) {
            Err(e) => Some(Err((e, (end + 1) as nat))),
            Ok(response) => match response.datalen {
                None => Some(Ok((response, (end + 1) as nat))),
                Some(length) => with_block(received, end + 1, response, length as int),
            },
        }
    }
}

/// A response whose data block starts at `start`.
pub open spec fn with_block(received: Seq<u8>, start: int, response: MetaResponseView, length: int) -> Option<
    Result<(MetaResponseView, nat), (ErrorView, nat)>,
> {
    if received.len() < start + length + 2 {
        None
    } else if received.subrange(start + length, start + length + 2) != bytes::crlf() {
        Some(Err((error::protocol("data block missing CRLF terminator"), (start + length + 2) as nat)))
    } else {
        Some(
            Ok(
                (
                    MetaResponseView { value: Some(received.subrange(start, start + length)), ..response },
                    (start + length + 2) as nat,
                ),
            ),
        )
    }
}

pub proof fn lemma_line_end(bytes: Seq<u8>)
    ensures
        line_end(bytes) <= bytes.len(),
        forall|i: int| 0 <= i < line_end(bytes) ==> bytes[i] != 10,
        line_end(bytes) < bytes.len() ==> bytes[line_end(bytes) as int] == 10,
    decreases bytes.len(),
{
    if bytes.len() > 0 && bytes[0] != 10 {
        lemma_line_end(bytes.skip(1));
        assert forall|i: int| 0 <= i < line_end(bytes) implies bytes[i] != 10 by {
            if i > 0 {
                assert(bytes[i] == bytes.skip(1)[i - 1]);
            }
        }
    }
}

pub proof fn lemma_line_end_is(bytes: Seq<u8>, end: int)
    requires
        0 <= end <= bytes.len(),
        forall|i: int| 0 <= i < end ==> bytes[i] != 10,
        end < bytes.len() ==> bytes[end] == 10,
    ensures
        line_end(bytes) == end,
{
    lemma_line_end(bytes);
    if line_end(bytes) < end {
        assert(bytes[line_end(bytes) as int] != 10);
    }
}

/// What has been framed stays so: bytes that arrive later do not change the
/// responses that were complete.
pub proof fn lemma_framing_is_stable(received: Seq<u8>, more: Seq<u8>)
    requires
        framed(received) is Some,
    ensures
        framed(received + more) == framed(received),
{
    let all = received + more;
    let end = line_end(received) as int;
    lemma_line_end(received);
    lemma_line_end_is(all, end);
    assert(all.take(end) =~= received.take(end));
    if end > 0 {
        assert(all.take(end - 1) =~= received.take(end - 1));
    }
    if let Ok(response) = meta_command::header(line_before(received, end)) {
        if let Some(length) = response.datalen {
            let start = end + 1;
            let stop = start + length;
            assert(all.subrange(stop, stop + 2) =~= received.subrange(stop, stop + 2));
            assert(all.subrange(start, stop) =~= received.subrange(start, stop));
        }
    }
}

/// A complete response, broken or not, takes up at least its line end and no
/// more than the bytes received.
pub proof fn lemma_frame_fits(received: Seq<u8>)
    ensures
        framed(received) matches Some(Ok((_, used))) ==> 0 < used <= received.len(),
        framed(received) matches Some(Err((_, used))) ==> 0 < used <= received.len(),
{
    lemma_line_end(received);
}

/// What the bytes received amount to.
#[derive(Debug)]
pub enum Frame {
    /// More bytes are needed.
    Partial,
    /// A response, which takes up the first `used` bytes.
    Complete { response: MetaResponse, used: usize },
    /// No response, in the first `used` bytes.
    Broken { error: Error, used: usize },
}

/// Cut the first response out of the bytes received.
pub fn frame(received: &[u8]) -> (r: Frame)
    ensures
        match r {
            Frame::Partial => framed(received@) is None,
            Frame::Complete { response, used } => framed(received@) == Some(
                Ok::<(MetaResponseView, nat), (ErrorView, nat)>((response@, used as nat)),
            ) && 0 < used <= received@.len(),
            Frame::Broken { error, used } => framed(received@) == Some(
                Err::<(MetaResponseView, nat), (ErrorView, nat)>((error@, used as nat)),
            ) && 0 < used <= received@.len(),
        },
{
    let mut end: usize = 0;
    while end < received.len() && received[end] != 10
        invariant
            end <= received@.len(),
            forall|i: int| 0 <= i < end ==> received@[i] != 10,
        decreases received@.len() - end,
    {
        end += 1;
    }
    proof {
        lemma_line_end_is(received@, end as int);
    }
    if end == received.len() {
        return Frame::Partial;
    }
    let stop = if end > 0 && received[end - 1] == 13 {
        end - 1
    } else {
        end
    };
    let line = bytes::slice(received, 0, stop);
    assert(line@ =~= line_before(received@, end as int));
    let mut response = match MetaResponse::parse_header(line.as_slice()) {
        Ok(response) => response,
        Err(e) => {
            return Frame::Broken { error: e, used: end + 1 };
        },
    };
    let start = end + 1;
    match response.datalen {
        None => Frame::Complete { response, used: start },
        Some(length) => {
            let left = received.len() - start;
            if left < 2 || left - 2 < length {
                return Frame::Partial;
            }
            let after = start + length;
            assert(received@.subrange(after as int, after + 2) =~= bytes::crlf() <==> received@[after as int] == 13
                && received@[after + 1] == 10) by {
                let tail = received@.subrange(after as int, after + 2);
                assert(tail[0] == received@[after as int] && tail[1] == received@[after + 1]);
            }
            if received[after] != 13 || received[after + 1] != 10 {
                return Frame::Broken {
                    error: Error::protocol("data block missing CRLF terminator"),
                    used: after + 2,
                };
            }
            response.value = Some(bytes::slice(received, start, after));
            Frame::Complete { response, used: after + 2 }
        },
    }
}

/// The error of a stream that ends inside a response.
pub fn end_of_stream() -> (r: Error)
    ensures
        r@ == ErrorView::Io(io::of_kind(IoErrorKind::UnexpectedEof)),
{
    Error::Io(IoError::from_kind(IoErrorKind::UnexpectedEof))
}

/// A payload on its way out. Counts what the transport accepted, so that a
/// failure part way says how much may have landed.
#[derive(Debug)]
pub struct Sending {
    pub length: usize,
    pub written: usize,
}

impl Sending {
    pub open spec fn well_formed(self) -> bool {
        self.written <= self.length
    }

    /// Nothing of the payload has been written.
    pub fn new(length: usize) -> (r: Sending)
        ensures
            r.well_formed(),
            r.length == length,
            r.written == 0,
    {
        Sending { length, written: 0 }
    }

    /// Whether all of the payload has been written.
    pub fn is_done(&self) -> (r: bool)
        ensures
            r == (self.written == self.length),
    {
        self.written == self.length
    }

    /// Count what one write accepted. A write that accepts nothing of a
    /// payload that is not done is an error.
    pub fn advance(&mut self, accepted: usize) -> (r: Result<(), Error>)
        requires
            old(self).well_formed(),
            accepted <= old(self).length - old(self).written,
        ensures
            final(self).well_formed(),
            final(self).length == old(self).length,
            final(self).written == old(self).written + accepted,
            match r {
                Ok(_) => accepted > 0,
                Err(e) => accepted == 0 && e@ == ErrorView::Io(io::of_kind(IoErrorKind::WriteZero)),
            },
    {
        if accepted == 0 {
            return Err(Error::Io(IoError::from_kind(IoErrorKind::WriteZero)));
        }
        self.written = self.written + accepted;
        Ok(())
    }
}

/// What a non-blocking probe of an idle connection found.
#[derive(Debug, Clone, Copy, PartialEq, Eq, Structural)]
pub enum Probe {
    /// The peer closed the connection.
    Closed,
    /// A byte that belongs to no exchange.
    Stray,
    /// Nothing to read.
    Quiet,
    /// The probe failed.
    Failed,
}

/// Whether an idle connection is still fit for reuse. A synchronized stream is
/// quiet between exchanges, so any buffered or pending bytes mean
/// desynchronization, and an end of stream means the peer (server restart, LB,
/// NAT) closed the connection while it sat in the pool.
pub fn is_reusable(buffered: usize, probe: Probe) -> (r: bool)
    ensures
        r == (buffered == 0 && probe == Probe::Quiet),
{
    buffered == 0 && probe == Probe::Quiet
}

/// The time left until a deadline, for the next transport call. A spent
/// deadline is a timeout: a zero socket timeout would mean "unlimited".
pub fn time_left(deadline: Option<SystemTime>, now: SystemTime) -> (r: Result<Option<Duration>, Error>)
    ensures
        match r {
            Ok(None) => deadline is None,
            Ok(Some(left)) => deadline is Some && left.nanos > 0 && left.nanos == deadline->0.nanos - now.nanos,
            Err(e) => deadline is Some && deadline->0.nanos <= now.nanos && e@ == ErrorView::Io(
                io::of_kind(IoErrorKind::TimedOut),
            ),
        },
{
    match deadline {
        None => Ok(None),
        Some(deadline) => {
            if deadline.nanos <= now.nanos {
                return Err(Error::Io(IoError::from_kind(IoErrorKind::TimedOut)));
            }
            let nanos: u128 = if now.nanos >= 0 {
                (deadline.nanos - now.nanos) as u128
            } else if deadline.nanos < 0 {
                (deadline.nanos - now.nanos) as u128
            } else {
                // The span between a moment before the epoch and one after it.
                deadline.nanos as u128 + magnitude(now.nanos)
            };
            Ok(Some(Duration { nanos }))
        },
    }
}

fn magnitude(nanos: i128) -> (r: u128)
    requires
        nanos < 0,
    ensures
        r == -nanos,
{
    // -i128::MIN does not fit an i128, so count from one above.
    ((-(nanos + 1)) as u128) + 1
}

/// The error of a socket call that failed under a time limit. Some systems
/// report a limit that was reached as a call that would block: it is a timeout
/// on all of them.
pub fn socket_error(error: IoError) -> (r: Error)
    ensures
        r@ == ErrorView::Io(
            if error.kind == IoErrorKind::WouldBlock {
                io::of_kind(IoErrorKind::TimedOut)
            } else {
                error@
            },
        ),
{
    if error.kind == IoErrorKind::WouldBlock {
        Error::Io(IoError::from_kind(IoErrorKind::TimedOut))
    } else {
        Error::Io(error)
    }
}

/// What to do next while dialing a server.
#[derive(Debug)]
pub enum DialStep {
    /// Try this of the server's addresses, for no longer than what is left of
    /// the deadline that all of them share.
    Try { address: usize, left: Option<Duration> },
    /// Give up.
    Fail(Error),
}

/// Dial one of a server's addresses under one shared deadline: each in turn,
/// until one answers, none is left or the time is up. The last failure is the
/// one that is reported; without one, the time was up before the first try.
pub fn dial_step(addresses: usize, tried: usize, deadline: Option<SystemTime>, now: SystemTime, last: Option<IoError>) -> (r:
    DialStep)
    ensures
        match r {
            DialStep::Try { address, left } => address == tried && tried < addresses && match deadline {
                None => left is None,
                Some(deadline) => left is Some && left->0.nanos > 0 && left->0.nanos == deadline.nanos - now.nanos,
            },
            DialStep::Fail(e) => (tried >= addresses || (deadline is Some && deadline->0.nanos <= now.nanos)) && e@
                == ErrorView::Io(
                match last {
                    Some(error) => error@,
                    None => io::of_kind(IoErrorKind::TimedOut),
                },
            ),
        },
{
    let failure = match last {
        Some(error) => Error::Io(error),
        None => Error::Io(IoError::from_kind(IoErrorKind::TimedOut)),
    };
    if tried >= addresses {
        return DialStep::Fail(failure);
    }
    match time_left(deadline, now) {
        Ok(left) => DialStep::Try { address: tried, left },
        Err(_) => DialStep::Fail(failure),
    }
}

/// The payload of commands that are written in one go, without opaque tokens.
pub open spec fn plain_wire(commands: Seq<MetaCommandView>) -> Seq<u8>
    decreases commands.len(),
{
    if commands.len() == 0 {
        Seq::empty()
    } else {
        plain_wire(commands.drop_last()) + commands.last().wire(None)
    }
}

/// Encode commands into one payload, without opaque tokens. The first command
/// that cannot be sent fails the whole payload.
pub fn encode_payload(commands: &Vec<MetaCommand>) -> (r: Result<Vec<u8>, Error>)
    ensures
        match r {
            Ok(payload) => batch::first_fault(batch::command_views(commands@)) is None && payload@
                == plain_wire(batch::command_views(commands@)),
            Err(e) => batch::first_fault(batch::command_views(commands@)) == Some(e@),
        },
{
    let ghost views = batch::command_views(commands@);
    let mut payload: Vec<u8> = Vec::new();
    let mut i: usize = 0;
    assert(views.take(0) =~= Seq::<MetaCommandView>::empty());
    while i < commands.len()
        invariant
            i <= commands@.len(),
            views == batch::command_views(commands@),
            payload@ == plain_wire(views.take(i as int)),
            batch::first_fault(views.take(i as int)) is None,
        decreases commands@.len() - i,
    {
        assert(views.take(i + 1).drop_last() =~= views.take(i as int));
        match commands[i].encode_into(&mut payload) {
            Ok(_) => {},
            Err(e) => {
                proof {
                    batch::lemma_fault_stays(views, i as nat);
                }
                return Err(e);
            },
        }
        i += 1;
    }
    assert(views.take(i as int) =~= views);
    Ok(payload)
}

} // verus!
