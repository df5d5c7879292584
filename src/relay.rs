//! The path of a frame from the camera to the client, end to end.
use vstd::prelude::*;

use crate::queue::{lemma_fifo, QueueModel};
use crate::session::{lemma_reconnect, next_phase, Event, Phase};
use crate::wire::{
    be_bytes, decode, frame_bytes, is_jpeg, lemma_invalid_frame_stops, lemma_truncated_frame_is_short_read, lemma_well_formed_stream, well_formed,
    wire, FrameError,
};

verus! {

/// Well-formed frames sent by a camera reach the client exactly as sent:
/// read from the wire in order, enqueued into an empty open queue with room
/// for them, and dequeued in the same order, none dropped and none repeated.
pub proof fn lemma_relay_in_order(fs: Seq<Seq<u8>>, q: QueueModel)
    requires
        forall|i: int| 0 <= i < fs.len() ==> well_formed(#[trigger] fs[i]),
        q.wf(),
        !q.closed,
        q.frames.len() == 0,
        fs.len() <= q.capacity,
    ensures
        decode(wire(fs)) == (fs, FrameError::ShortRead),
        q.after_enqueue_all(decode(wire(fs)).0).drained() == fs,
{
    lemma_well_formed_stream(fs);
    lemma_fifo(q, fs);
    assert(q.frames + fs =~= fs);
}

/// A camera that drops in the middle of a frame is replaced by a new
/// connection: the side binds and accepts again, and the client receives the
/// frames still queued, then those of the first connection, then those of the
/// second, in order; the cut frame is never delivered.
pub proof fn lemma_reconnect_continues(
    q: QueueModel,
    first: Seq<Seq<u8>>,
    n: nat,
    cut: Seq<u8>,
    second: Seq<Seq<u8>>,
)
    requires
        forall|i: int| 0 <= i < first.len() ==> well_formed(#[trigger] first[i]),
        forall|i: int| 0 <= i < second.len() ==> well_formed(#[trigger] second[i]),
        n < 0x1_0000_0000,
        cut.len() < n,
        q.wf(),
        !q.closed,
        q.frames.len() + first.len() + second.len() <= q.capacity,
    ensures
        decode(wire(first) + be_bytes(n) + cut) == (first, FrameError::ShortRead),
        next_phase(
            next_phase(next_phase(Phase::Serving, Event::ConnectionLost), Event::Bound),
            Event::Accepted,
        ) == Phase::Serving,
        decode(wire(second)).0 == second,
        q.after_enqueue_all(first).after_enqueue_all(second).drained() == q.frames + first
            + second,
{
    lemma_truncated_frame_is_short_read(first, n, cut);
    lemma_reconnect();
    lemma_well_formed_stream(second);
    lemma_fifo(q, first);
    lemma_fifo(q.after_enqueue_all(first), second);
}

/// A frame that is not a JPEG image ends its camera connection: the frames
/// before it are delivered, it and everything after it on that connection
/// are not, and a new camera connection is accepted whose frames follow.
pub proof fn lemma_invalid_frame_dropped(
    q: QueueModel,
    first: Seq<Seq<u8>>,
    bad: Seq<u8>,
    after: Seq<u8>,
    second: Seq<Seq<u8>>,
)
    requires
        forall|i: int| 0 <= i < first.len() ==> well_formed(#[trigger] first[i]),
        forall|i: int| 0 <= i < second.len() ==> well_formed(#[trigger] second[i]),
        bad.len() < 0x1_0000_0000,
        !is_jpeg(bad),
        q.wf(),
        !q.closed,
        q.frames.len() + first.len() + second.len() <= q.capacity,
    ensures
        decode(wire(first) + frame_bytes(bad) + after) == (first, FrameError::ProtocolViolation),
        next_phase(
            next_phase(next_phase(Phase::Serving, Event::ConnectionLost), Event::Bound),
            Event::Accepted,
        ) == Phase::Serving,
        decode(wire(second)).0 == second,
        q.after_enqueue_all(first).after_enqueue_all(second).drained() == q.frames + first
            + second,
{
    lemma_invalid_frame_stops(first, bad, after);
    lemma_reconnect();
    lemma_well_formed_stream(second);
    lemma_fifo(q, first);
    lemma_fifo(q.after_enqueue_all(first), second);
}

} // verus!
