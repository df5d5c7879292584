//! What the camera side and the client side decide between their outside
//! steps: binding, accepting, reading, writing. The caller performs each
//! step and reports how it went; these functions say what comes next.
use vstd::prelude::*;

use crate::mjpeg::{encode_part, part};
use crate::queue::Dequeued;
use crate::wire::{announced, frame_complete, is_jpeg, next_frame, payload_of, FrameError, Parsed};

verus! {

/// Why a side stopped for good.
#[derive(Debug, Clone, Copy, PartialEq, Eq, Structural)]
pub enum StopReason {
    /// Its listening socket could not be bound.
    BindFailure,
    /// Accepting a connection failed.
    AcceptFailure,
    /// The relay queue was closed and drained: nothing more will come.
    EndOfStream,
}

/// Where a side stands in its bind, accept, serve cycle.
#[derive(Debug, Clone, Copy, PartialEq, Eq, Structural)]
pub enum Phase {
    /// About to bind its listening socket.
    Binding,
    /// Bound, about to accept one connection.
    Accepting,
    /// Serving the one connection it accepted.
    Serving,
    /// Stopped for good.
    Stopped(StopReason),
}

/// How the last step of a side went.
#[derive(Debug, Clone, Copy, PartialEq, Eq, Structural)]
pub enum Event {
    Bound,
    BindFailed,
    Accepted,
    AcceptFailed,
    /// The connection ended on a connection-level error: a short read, a
    /// protocol violation, a write failure, or a refused enqueue.
    ConnectionLost,
    /// The relay queue reported end of stream.
    Finished,
}

/// The phase that follows `p` on `e`. Bind and accept failures are fatal; a
/// lost connection sends the side back to bind and accept a new one; an
/// event that does not belong to the phase changes nothing.
pub open spec fn next_phase(p: Phase, e: Event) -> Phase {
    match (p, e) {
        (Phase::Binding, Event::Bound) => Phase::Accepting,
        (Phase::Binding, Event::BindFailed) => Phase::Stopped(StopReason::BindFailure),
        (Phase::Accepting, Event::Accepted) => Phase::Serving,
        (Phase::Accepting, Event::AcceptFailed) => Phase::Stopped(StopReason::AcceptFailure),
        (Phase::Serving, Event::ConnectionLost) => Phase::Binding,
        (Phase::Serving, Event::Finished) => Phase::Stopped(StopReason::EndOfStream),
        _ => p,
    }
}

/// Advances a side's phase on the outcome of its last step.
pub fn step(p: Phase, e: Event) -> (r: Phase)
    ensures
        r == next_phase(p, e),
{
    match (p, e) {
        (Phase::Binding, Event::Bound) => Phase::Accepting,
        (Phase::Binding, Event::BindFailed) => Phase::Stopped(StopReason::BindFailure),
        (Phase::Accepting, Event::Accepted) => Phase::Serving,
        (Phase::Accepting, Event::AcceptFailed) => Phase::Stopped(StopReason::AcceptFailure),
        (Phase::Serving, Event::ConnectionLost) => Phase::Binding,
        (Phase::Serving, Event::Finished) => Phase::Stopped(StopReason::EndOfStream),
        _ => p,
    }
}

/// After a lost connection, binding and accepting again puts the side back
/// to serving a new connection.
pub proof fn lemma_reconnect()
    ensures
        next_phase(Phase::Serving, Event::ConnectionLost) == Phase::Binding,
        next_phase(
            next_phase(next_phase(Phase::Serving, Event::ConnectionLost), Event::Bound),
            Event::Accepted,
        ) == Phase::Serving,
{
}

/// What the camera side does next with the bytes of its connection.
#[derive(Debug)]
pub enum CameraStep {
    /// Read more bytes from the camera.
    NeedMore,
    /// Enqueue `payload` and drop the first `consumed` bytes of the buffer.
    Deliver { payload: Vec<u8>, consumed: usize },
    /// Tear the connection down.
    Drop(FrameError),
}

/// Decides on the bytes received so far from the camera, from `buf[start]`
/// on, and on whether the camera has closed its end.
pub fn camera_step(buf: &[u8], start: usize, peer_closed: bool) -> (r: CameraStep)
    requires
        start <= buf@.len(),
    ensures
        ({
            let b = buf@.subrange(start as int, buf@.len() as int);
            match r {
                CameraStep::NeedMore => !frame_complete(b) && !peer_closed,
                CameraStep::Drop(FrameError::ShortRead) => !frame_complete(b) && peer_closed,
                CameraStep::Drop(FrameError::ProtocolViolation) => frame_complete(b) && !is_jpeg(
                    payload_of(b),
                ),
                CameraStep::Deliver { payload, consumed } => {
                    &&& frame_complete(b)
                    &&& is_jpeg(payload_of(b))
                    &&& payload@ == payload_of(b)
                    &&& consumed == 4 + announced(b)
                },
            }
        }),
{
    match next_frame(buf, start) {
        Parsed::Incomplete => {
            if peer_closed {
                CameraStep::Drop(FrameError::ShortRead)
            } else {
                CameraStep::NeedMore
            }
        },
        Parsed::Invalid => CameraStep::Drop(FrameError::ProtocolViolation),
        Parsed::Frame { payload, consumed } => CameraStep::Deliver { payload, consumed },
    }
}

/// What the client side does next with what the relay queue handed out.
#[derive(Debug)]
pub enum EmitStep {
    /// Write these bytes to the client and flush.
    Send(Vec<u8>),
    /// The queue is empty: wait for a frame.
    Wait,
    /// The queue has ended: stop.
    Finish,
}

/// Decides on the result of a dequeue: a frame becomes one multipart part,
/// stamped `elapsed_nanos` after the emitter's reference point.
pub fn emit_step(d: Dequeued, elapsed_nanos: u64) -> (r: EmitStep)
    ensures
        match d {
            Dequeued::Frame(f) => r matches EmitStep::Send(bytes) && bytes@ == part(
                f@,
                elapsed_nanos as nat,
            ),
            Dequeued::Empty => r is Wait,
            Dequeued::Ended => r is Finish,
        },
{
    match d {
        Dequeued::Frame(f) => EmitStep::Send(encode_part(f.as_slice(), elapsed_nanos)),
        Dequeued::Empty => EmitStep::Wait,
        Dequeued::Ended => EmitStep::Finish,
    }
}

} // verus!
