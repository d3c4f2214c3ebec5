//! The producer's request-reply and sink-mode decisions.
//!
//! A publish sends `PUB`/`MPUB`/`DPUB` and awaits one inbound item, which
//! must be `OK`. In sink mode the connection is split: a reader task drains
//! the receive half and reports the first error once over a single-use
//! channel; the sink half composes a `PUB` for each payload and surfaces
//! the reported error on its next readiness poll.

use vstd::prelude::*;
use crate::command::Command;
use crate::error::Error;
use crate::heartbeat::{Response, ResponseView};

verus! {

/// The command one sink payload becomes.
pub fn compose_pub(topic: String, msg: Vec<u8>) -> (cmd: Command)
    ensures
        cmd == Command::Pub(topic, msg),
{
    Command::Pub(topic, msg)
}

/// The verdict on the one reply a publish awaits: `OK` succeeds, a broker
/// error fails with it, and a message frame has no place on a publish-only
/// connection.
pub fn publish_reply(reply: Response) -> (r: Result<(), Error>)
    ensures
        match reply@ {
            ResponseView::Okay => r is Ok,
            ResponseView::Error(e) => r matches Err(Error::NsqError(ne)) && ne@ == e,
            ResponseView::Msg(_) => r matches Err(Error::IoError(m)) && m@
                == "unexpected message frame"@,
        },
{
    match reply {
        Response::Okay => Result::Ok(()),
        Response::Error(e) => Result::Err(Error::NsqError(e)),
        Response::Msg(_) => Result::Err(Error::IoError("unexpected message frame".to_owned())),
    }
}

/// What the sink-mode reader task does with one item from the receive
/// half.
#[derive(Debug, Clone, PartialEq, Eq)]
pub enum ReaderAction {
    /// `OK` for an earlier publish: keep draining.
    Continue,
    /// Report this error over the channel and stop.
    Report(Error),
    /// The stream ended: stop without a report.
    Stop,
}

/// The reader task's decision for one received item: acknowledgments are
/// dropped, the first error is reported, the end of the stream stops it.
pub fn reader_step(item: Option<Result<Response, Error>>) -> (a: ReaderAction)
    ensures
        match item {
            Option::None => a is Stop,
            Option::Some(res) => match res {
                Result::Ok(resp) => match resp@ {
                    ResponseView::Okay => a is Continue,
                    ResponseView::Error(e) => a matches ReaderAction::Report(r) && (
                    r matches Error::NsqError(ne) && ne@ == e),
                    ResponseView::Msg(_) => a matches ReaderAction::Report(r) && (
                    r matches Error::IoError(m) && m@ == "unexpected message frame"@),
                },
                Result::Err(e) => a == ReaderAction::Report(e),
            },
        },
{
    match item {
        Option::None => ReaderAction::Stop,
        Option::Some(res) => match res {
            Result::Ok(Response::Okay) => ReaderAction::Continue,
            Result::Ok(Response::Error(e)) => ReaderAction::Report(Error::NsqError(e)),
            Result::Ok(Response::Msg(_)) => ReaderAction::Report(
                Error::IoError("unexpected message frame".to_owned()),
            ),
            Result::Err(e) => ReaderAction::Report(e),
        },
    }
}

/// What the sink sees on its error channel when it polls readiness.
#[derive(Debug, Clone, PartialEq, Eq)]
pub enum ErrorChannel {
    /// The channel was already consumed by an earlier poll.
    Gone,
    /// The reader reported this error.
    Reported(Error),
    /// The reader stopped without a report: the stream ended.
    Closed,
    /// Nothing reported yet.
    Pending,
}

/// The sink's readiness check: an error from the reader, or a stream that
/// ended, fails the poll; silence keeps the sink ready.
pub fn sink_poll(state: ErrorChannel) -> (r: Result<(), Error>)
    ensures
        match state {
            ErrorChannel::Gone => r matches Err(Error::IoError(m)) && m@ == "unexpected eof"@,
            ErrorChannel::Reported(e) => r == Result::<(), Error>::Err(e),
            ErrorChannel::Closed => r matches Err(Error::IoError(m)) && m@ == "unexpected eof"@,
            ErrorChannel::Pending => r is Ok,
        },
{
    match state {
        ErrorChannel::Gone => Result::Err(Error::IoError("unexpected eof".to_owned())),
        ErrorChannel::Reported(e) => Result::Err(e),
        ErrorChannel::Closed => Result::Err(Error::IoError("unexpected eof".to_owned())),
        ErrorChannel::Pending => Result::Ok(()),
    }
}

/// What a receive on the connection yields: an item, an in-stream error, or
/// an end-of-stream error where the peer closed.
pub fn receive_item(item: Option<Result<Response, Error>>) -> (r: Result<Response, Error>)
    ensures
        match item {
            Option::None => r matches Err(Error::IoError(m)) && m@ == "unexpected eof"@,
            Option::Some(res) => r == res,
        },
{
    match item {
        Option::Some(res) => res,
        Option::None => Result::Err(Error::IoError("unexpected eof".to_owned())),
    }
}

} // verus!
