//! The camera's frame protocol: a 4-byte big-endian length `N`, then `N`
//! bytes of JPEG data that start with `FF D8` and end with `FF D9`.
use vstd::prelude::*;

verus! {

/// Why a camera connection ended.
#[derive(Debug, Clone, Copy, PartialEq, Eq, Structural)]
pub enum FrameError {
    /// The connection closed before a whole length prefix or payload arrived.
    ShortRead,
    /// A complete payload did not carry the JPEG start and end markers.
    ProtocolViolation,
}

/// The number that four bytes hold, most significant byte first.
pub open spec fn be_u32(b: Seq<u8>) -> nat
    recommends
        b.len() == 4,
{
    (b[0] as nat) * 16777216 + (b[1] as nat) * 65536 + (b[2] as nat) * 256 + (b[3] as nat)
}

/// The four bytes that hold `n`, most significant byte first.
#[verifier::opaque]
pub open spec fn be_bytes(n: nat) -> Seq<u8> {
    seq![
        ((n / 16777216) % 256) as u8,
        ((n / 65536) % 256) as u8,
        ((n / 256) % 256) as u8,
        (n % 256) as u8,
    ]
}

/// A JPEG image: at least the start marker `FF D8` and the end marker `FF D9`.
pub open spec fn is_jpeg(p: Seq<u8>) -> bool {
    &&& p.len() >= 2
    &&& p[0] == 0xFF
    &&& p[1] == 0xD8
    &&& p[p.len() - 2] == 0xFF
    &&& p[p.len() - 1] == 0xD9
}

/// Reads the length prefix of a frame.
pub fn frame_size(prefix: &[u8]) -> (r: u32)
    requires
        prefix@.len() == 4,
    ensures
        r as nat == be_u32(prefix@),
{
    let r: u32 = (prefix[0] as u32) * 16777216 + (prefix[1] as u32) * 65536
        + (prefix[2] as u32) * 256 + (prefix[3] as u32);
    r
}

/// Whether a payload carries the JPEG start and end markers.
pub fn is_valid_frame(payload: &[u8]) -> (r: bool)
    ensures
        r == is_jpeg(payload@),
{
    let n = payload.len();
    n >= 2 && payload[0] == 0xFF && payload[1] == 0xD8 && payload[n - 2] == 0xFF
        && payload[n - 1] == 0xD9
}

/// What the start of a buffer holds.
#[derive(Debug)]
pub enum Parsed {
    /// Not yet a whole frame: more bytes are needed.
    Incomplete,
    /// A whole frame whose payload is not a JPEG image.
    Invalid,
    /// A whole, valid frame, and the number of buffer bytes it took.
    Frame { payload: Vec<u8>, consumed: usize },
}

/// The payload length that the prefix at the start of `b` announces.
pub open spec fn announced(b: Seq<u8>) -> nat {
    be_u32(b.subrange(0, 4))
}

/// `b` starts with a whole frame: a prefix and as many bytes as it announces.
pub open spec fn frame_complete(b: Seq<u8>) -> bool {
    b.len() >= 4 && b.len() >= 4 + announced(b)
}

/// The payload of the frame at the start of `b`.
pub open spec fn payload_of(b: Seq<u8>) -> Seq<u8> {
    b.subrange(4, 4 + announced(b) as int)
}

/// The frames that a connection delivering exactly the bytes `b` yields, in
/// order, and the error that ends it: reading stops at the first invalid
/// frame, and a close anywhere else is a short read.
pub open spec fn decode(b: Seq<u8>) -> (Seq<Seq<u8>>, FrameError)
    decreases b.len(),
{
    if !frame_complete(b) {
        (Seq::empty(), FrameError::ShortRead)
    } else if !is_jpeg(payload_of(b)) {
        (Seq::empty(), FrameError::ProtocolViolation)
    } else {
        let rest = decode(b.subrange(4 + announced(b) as int, b.len() as int));
        (seq![payload_of(b)] + rest.0, rest.1)
    }
}

/// Parses the frame that starts at `buf[start]`.
pub fn next_frame(buf: &[u8], start: usize) -> (r: Parsed)
    requires
        start <= buf@.len(),
    ensures
        ({
            let b = buf@.subrange(start as int, buf@.len() as int);
            match r {
                Parsed::Incomplete => !frame_complete(b),
                Parsed::Invalid => frame_complete(b) && !is_jpeg(payload_of(b)),
                Parsed::Frame { payload, consumed } => {
                    &&& frame_complete(b)
                    &&& is_jpeg(payload_of(b))
                    &&& payload@ == payload_of(b)
                    &&& consumed == 4 + announced(b)
                },
            }
        }),
{
    let ghost b = buf@.subrange(start as int, buf@.len() as int);
    let avail = buf.len() - start;
    if avail < 4 {
        return Parsed::Incomplete;
    }
    let n = (buf[start] as u32) * 16777216 + (buf[start + 1] as u32) * 65536
        + (buf[start + 2] as u32) * 256 + (buf[start + 3] as u32);
    assert(b.subrange(0, 4) =~= seq![buf@[start as int], buf@[start + 1], buf@[start + 2], buf@[start + 3]]);
    assert(n as nat == announced(b));
    if avail - 4 < n as usize {
        return Parsed::Incomplete;
    }
    let len = n as usize;
    let mut payload: Vec<u8> = Vec::with_capacity(len);
    let base = start + 4;
    let end = base + len;
    let mut i: usize = 0;
    while i < len
        invariant
            i <= len,
            base == start + 4,
            end == base + len,
            end <= buf@.len(),
            payload@ =~= buf@.subrange(start + 4, start + 4 + i),
        decreases len - i,
    {
        payload.push(buf[base + i]);
        i = i + 1;
    }
    assert(payload@ =~= payload_of(b));
    if is_valid_frame(payload.as_slice()) {
        Parsed::Frame { payload, consumed: 4 + len }
    } else {
        Parsed::Invalid
    }
}

/// The contents of a list of frames.
pub open spec fn views(v: Seq<Vec<u8>>) -> Seq<Seq<u8>> {
    v.map_values(|f: Vec<u8>| f@)
}

/// Splits everything a connection delivered into its frames, stopping at
/// the first error.
pub fn decode_all(bytes: &[u8]) -> (r: (Vec<Vec<u8>>, FrameError))
    ensures
        views(r.0@) == decode(bytes@).0,
        r.1 == decode(bytes@).1,
{
    let mut frames: Vec<Vec<u8>> = Vec::new();
    let mut pos: usize = 0;
    let total = bytes.len();
    assert(bytes@.subrange(0, bytes@.len() as int) =~= bytes@);
    assert(views(frames@) =~= Seq::<Seq<u8>>::empty());
    loop
        invariant
            pos <= bytes@.len(),
            total == bytes@.len(),
            decode(bytes@).0 =~= views(frames@) + decode(
                bytes@.subrange(pos as int, bytes@.len() as int),
            ).0,
            decode(bytes@).1 == decode(bytes@.subrange(pos as int, bytes@.len() as int)).1,
        decreases bytes@.len() - pos,
    {
        let ghost rest = bytes@.subrange(pos as int, bytes@.len() as int);
        match next_frame(bytes, pos) {
            Parsed::Incomplete => {
                assert(views(frames@) + Seq::<Seq<u8>>::empty() =~= views(frames@));
                return (frames, FrameError::ShortRead);
            },
            Parsed::Invalid => {
                assert(views(frames@) + Seq::<Seq<u8>>::empty() =~= views(frames@));
                return (frames, FrameError::ProtocolViolation);
            },
            Parsed::Frame { payload, consumed } => {
                let ghost old_views = views(frames@);
                let ghost p = payload@;
                assert(rest.subrange(consumed as int, rest.len() as int) =~= bytes@.subrange(
                    pos + consumed,
                    bytes@.len() as int,
                ));
                frames.push(payload);
                assert(views(frames@) =~= old_views.push(p));
                pos = pos + consumed;
            },
        }
    }
}

/// The bytes that carry one frame: its length prefix, then its payload.
pub open spec fn frame_bytes(p: Seq<u8>) -> Seq<u8> {
    be_bytes(p.len()) + p
}

/// The bytes that carry a list of frames, one after another.
pub open spec fn wire(fs: Seq<Seq<u8>>) -> Seq<u8>
    decreases fs.len(),
{
    if fs.len() == 0 {
        Seq::empty()
    } else {
        frame_bytes(fs[0]) + wire(fs.drop_first())
    }
}

/// A frame that the camera may send: a JPEG image whose length fits the prefix.
pub open spec fn well_formed(p: Seq<u8>) -> bool {
    is_jpeg(p) && p.len() < 0x1_0000_0000
}

/// The length prefix reads back as the length it was written from.
pub proof fn lemma_be_round_trip(n: nat)
    requires
        n < 0x1_0000_0000,
    ensures
        be_u32(be_bytes(n)) == n,
        be_bytes(n).len() == 4,
{
    reveal(be_bytes);
    let b = be_bytes(n);
    assert(b[0] as nat == n / 16777216) by (nonlinear_arith)
        requires n < 0x1_0000_0000, b[0] == ((n / 16777216) % 256) as u8;
    assert((n / 65536) % 256 == (n / 65536) - 256 * (n / 16777216)) by (nonlinear_arith);
    assert((n / 256) % 256 == (n / 256) - 256 * (n / 65536)) by (nonlinear_arith);
    assert(n % 256 == n - 256 * (n / 256)) by (nonlinear_arith);
    assert(be_u32(b) == n) by (nonlinear_arith)
        requires
            b[0] as nat == n / 16777216,
            b[1] as nat == (n / 65536) - 256 * (n / 16777216),
            b[2] as nat == (n / 256) - 256 * (n / 65536),
            b[3] as nat == n - 256 * (n / 256),
            be_u32(b) == (b[0] as nat) * 16777216 + (b[1] as nat) * 65536 + (b[2] as nat) * 256
                + (b[3] as nat),
    ;
}

/// A well-formed frame in front of any bytes decodes to itself, followed by
/// whatever those bytes decode to.
pub proof fn lemma_decode_frame(p: Seq<u8>, tail: Seq<u8>)
    requires
        well_formed(p),
    ensures
        decode(frame_bytes(p) + tail) == (seq![p] + decode(tail).0, decode(tail).1),
{
    let b = frame_bytes(p) + tail;
    lemma_be_round_trip(p.len());
    assert(b.subrange(0, 4) =~= be_bytes(p.len()));
    assert(payload_of(b) =~= p);
    assert(b.subrange(4 + announced(b) as int, b.len() as int) =~= tail);
}

/// The frames of a well-formed list, sent back to back in front of any bytes,
/// are read back in the same order, none dropped and none repeated; what
/// follows them decides the rest.
pub proof fn lemma_decode_wire(fs: Seq<Seq<u8>>, tail: Seq<u8>)
    requires
        forall|i: int| 0 <= i < fs.len() ==> well_formed(#[trigger] fs[i]),
    ensures
        decode(wire(fs) + tail) == (fs + decode(tail).0, decode(tail).1),
    decreases fs.len(),
{
    if fs.len() == 0 {
        assert(wire(fs) + tail =~= tail);
        assert(fs + decode(tail).0 =~= decode(tail).0);
    } else {
        let rest = fs.drop_first();
        lemma_decode_wire(rest, tail);
        assert(wire(fs) + tail =~= frame_bytes(fs[0]) + (wire(rest) + tail));
        lemma_decode_frame(fs[0], wire(rest) + tail);
        assert(seq![fs[0]] + (rest + decode(tail).0) =~= fs + decode(tail).0);
    }
}

/// A camera that sends well-formed frames and then closes the connection has
/// every frame read, in order, and the connection ends as a short read.
pub proof fn lemma_well_formed_stream(fs: Seq<Seq<u8>>)
    requires
        forall|i: int| 0 <= i < fs.len() ==> well_formed(#[trigger] fs[i]),
    ensures
        decode(wire(fs)) == (fs, FrameError::ShortRead),
{
    lemma_decode_wire(fs, Seq::empty());
    assert(wire(fs) + Seq::<u8>::empty() =~= wire(fs));
    assert(decode(Seq::<u8>::empty()) == (Seq::<Seq<u8>>::empty(), FrameError::ShortRead));
    assert(fs + Seq::<Seq<u8>>::empty() =~= fs);
}

/// Every frame that reading yields is a JPEG image, whatever the bytes.
pub proof fn lemma_decoded_frames_are_jpeg(b: Seq<u8>)
    ensures
        forall|i: int| 0 <= i < decode(b).0.len() ==> is_jpeg(#[trigger] decode(b).0[i]),
    decreases b.len(),
{
    if frame_complete(b) && is_jpeg(payload_of(b)) {
        let tail = b.subrange(4 + announced(b) as int, b.len() as int);
        lemma_decoded_frames_are_jpeg(tail);
        assert forall|i: int| 0 <= i < decode(b).0.len() implies is_jpeg(
            #[trigger] decode(b).0[i],
        ) by {
            if i > 0 {
                assert(decode(b).0[i] == decode(tail).0[i - 1]);
            }
        }
    }
}

/// A prefix written from `n` announces `n`, whatever follows it.
proof fn lemma_announced(n: nat, rest: Seq<u8>)
    requires
        n < 0x1_0000_0000,
    ensures
        announced(be_bytes(n) + rest) == n,
        (be_bytes(n) + rest).len() == 4 + rest.len(),
{
    lemma_be_round_trip(n);
    assert((be_bytes(n) + rest).subrange(0, 4) =~= be_bytes(n));
}

/// A whole frame that is not a JPEG image is a protocol violation.
proof fn lemma_decode_invalid(bad: Seq<u8>, after: Seq<u8>)
    requires
        bad.len() < 0x1_0000_0000,
        !is_jpeg(bad),
    ensures
        decode(frame_bytes(bad) + after) == (Seq::<Seq<u8>>::empty(), FrameError::ProtocolViolation),
{
    let tail = frame_bytes(bad) + after;
    assert(tail =~= be_bytes(bad.len()) + (bad + after));
    lemma_announced(bad.len(), bad + after);
    assert(payload_of(tail) =~= bad);
}

/// After well-formed frames, a frame that is not a JPEG image ends the
/// connection as a protocol violation: the frames before it are read, it and
/// everything after it are not.
pub proof fn lemma_invalid_frame_stops(fs: Seq<Seq<u8>>, bad: Seq<u8>, after: Seq<u8>)
    requires
        forall|i: int| 0 <= i < fs.len() ==> well_formed(#[trigger] fs[i]),
        bad.len() < 0x1_0000_0000,
        !is_jpeg(bad),
    ensures
        decode(wire(fs) + frame_bytes(bad) + after) == (fs, FrameError::ProtocolViolation),
{
    let tail = frame_bytes(bad) + after;
    lemma_decode_invalid(bad, after);
    lemma_decode_wire(fs, tail);
    assert(wire(fs) + frame_bytes(bad) + after =~= wire(fs) + tail);
    assert(fs + Seq::<Seq<u8>>::empty() =~= fs);
}

/// A prefix followed by fewer bytes than it announces is a short read.
proof fn lemma_decode_short(n: nat, part: Seq<u8>)
    requires
        n < 0x1_0000_0000,
        part.len() < n,
    ensures
        decode(be_bytes(n) + part) == (Seq::<Seq<u8>>::empty(), FrameError::ShortRead),
{
    lemma_announced(n, part);
}

/// After well-formed frames, a prefix announcing `n` bytes followed by fewer
/// than `n` bytes and then the close ends the connection as a short read.
pub proof fn lemma_truncated_frame_is_short_read(fs: Seq<Seq<u8>>, n: nat, part: Seq<u8>)
    requires
        forall|i: int| 0 <= i < fs.len() ==> well_formed(#[trigger] fs[i]),
        n < 0x1_0000_0000,
        part.len() < n,
    ensures
        decode(wire(fs) + be_bytes(n) + part) == (fs, FrameError::ShortRead),
{
    let tail = be_bytes(n) + part;
    lemma_decode_short(n, part);
    lemma_decode_wire(fs, tail);
    assert(wire(fs) + be_bytes(n) + part =~= wire(fs) + tail);
    assert(fs + Seq::<Seq<u8>>::empty() =~= fs);
}

} // verus!
