//! The phases of a connection between a command and its reply.
use vstd::prelude::*;

use crate::protocol::{Frame, FrameView};

verus! {

/// Phase of an open connection.
#[derive(PartialEq, Eq, Structural, Clone, Copy, Debug)]
pub enum Phase {
    /// No command is under way: the next one may be sent
    Ready,
    /// A command was sent and its reply is not complete
    AwaitingReply,
    /// The server reported a failure or the stream failed: the connection
    /// must be dropped
    Faulted,
}

/// What happened on the connection.
#[derive(PartialEq, Eq, Structural, Clone, Copy, Debug)]
pub enum Event {
    /// A command line was written and flushed
    Sent,
    /// A line of the reply was read and the reply goes on
    Incomplete,
    /// The reply ended with the success line
    Completed,
    /// The reply was the server's failure line
    ServerFailed,
    /// Reading or writing the stream failed
    TransportFailed,
}

/// The phase after `e` happens in phase `p`. A command sent while a reply is
/// awaited, or a reply read while none is, faults the connection: one
/// command is under way at a time.
pub open spec fn next_phase(p: Phase, e: Event) -> Phase {
    match (p, e) {
        (Phase::Ready, Event::Sent) => Phase::AwaitingReply,
        (Phase::AwaitingReply, Event::Incomplete) => Phase::AwaitingReply,
        (Phase::AwaitingReply, Event::Completed) => Phase::Ready,
        _ => Phase::Faulted,
    }
}

/// The event that a classified reply amounts to.
pub open spec fn frame_event(f: FrameView) -> Event {
    match f {
        FrameView::Incomplete => Event::Incomplete,
        FrameView::ServerError { .. } => Event::ServerFailed,
        FrameView::Body { .. } => Event::Completed,
    }
}

impl Phase {
    /// The phase after `e` happens in this phase.
    pub fn next(self, e: Event) -> (r: Phase)
        ensures
            r == next_phase(self, e),
    {
        match (self, e) {
            (Phase::Ready, Event::Sent) => Phase::AwaitingReply,
            (Phase::AwaitingReply, Event::Incomplete) => Phase::AwaitingReply,
            (Phase::AwaitingReply, Event::Completed) => Phase::Ready,
            _ => Phase::Faulted,
        }
    }

    /// Whether a command may be sent in this phase.
    pub fn may_send(self) -> (r: bool)
        ensures
            r == (self == Phase::Ready),
    {
        self == Phase::Ready
    }
}

impl Frame {
    /// The event that this classified reply amounts to.
    pub fn event(&self) -> (r: Event)
        ensures
            r == frame_event(self@),
    {
        match self {
            Frame::Incomplete => Event::Incomplete,
            Frame::ServerError { .. } => Event::ServerFailed,
            Frame::Body { .. } => Event::Completed,
        }
    }
}

/// A faulted connection stays faulted, whatever happens next.
pub proof fn lemma_faulted_stays(e: Event)
    ensures
        next_phase(Phase::Faulted, e) == Phase::Faulted,
{
}

/// A command followed by a complete reply brings a ready connection back
/// to ready.
pub proof fn lemma_round_trip_ready()
    ensures
        next_phase(next_phase(Phase::Ready, Event::Sent), Event::Completed) == Phase::Ready,
{
}

} // verus!
