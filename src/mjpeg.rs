//! The client side's MJPEG stream: one HTTP response preamble, then one
//! multipart part per frame.
use vstd::prelude::*;
use vstd::string::*;

verus! {

/// The bytes of an ASCII text, one per character.
pub open spec fn ascii(s: Seq<char>) -> Seq<u8> {
    s.map_values(|c: char| c as u8)
}

/// Appends the bytes of an ASCII text.
fn push_ascii(out: &mut Vec<u8>, s: &str)
    requires
        is_ascii(s),
    ensures
        final(out)@ == old(out)@ + ascii(s@),
{
    let n = s.unicode_len();
    let mut i: usize = 0;
    while i < n
        invariant
            is_ascii(s),
            n == s@.len(),
            i <= n,
            out@ == old(out)@ + ascii(s@.subrange(0, i as int)),
        decreases n - i,
    {
        let b = s.get_ascii(i);
        out.push(b);
        assert(ascii(s@.subrange(0, i + 1)) =~= ascii(s@.subrange(0, i as int)).push(b));
        i = i + 1;
    }
    assert(s@.subrange(0, n as int) =~= s@);
}

/// The response header block that opens every client connection.
pub const PREAMBLE: &'static str = "HTTP/1.0 200 OK\r\nConnection: close\r\nMax-Age: 0\r\nExpires: 0\r\nCache-Control: no-cache, private\r\nPragma: no-cache\r\nContent-Type: multipart/x-mixed-replace; boundary=frame\r\n\r\n";

/// The text of the response header block.
pub open spec fn preamble_text() -> Seq<char> {
    PREAMBLE@
}

/// The bytes sent to a client before any frame.
pub fn preamble() -> (r: Vec<u8>)
    ensures
        r@ == ascii(preamble_text()),
{
    proof {
        reveal_strlit("HTTP/1.0 200 OK\r\nConnection: close\r\nMax-Age: 0\r\nExpires: 0\r\nCache-Control: no-cache, private\r\nPragma: no-cache\r\nContent-Type: multipart/x-mixed-replace; boundary=frame\r\n\r\n");
    }
    let mut r: Vec<u8> = Vec::new();
    push_ascii(&mut r, PREAMBLE);
    r
}

/// The decimal digits of `n`, most significant first, with no leading zero.
pub open spec fn dec(n: nat) -> Seq<u8>
    decreases n,
{
    if n < 10 {
        seq![(48 + n) as u8]
    } else {
        dec(n / 10).push((48 + n % 10) as u8)
    }
}

/// The last `w` decimal digits of `n`, zeros in front where `n` is shorter.
pub open spec fn padded(n: nat, w: nat) -> Seq<u8>
    decreases w,
{
    if w == 0 {
        Seq::empty()
    } else {
        padded(n / 10, (w - 1) as nat).push((48 + n % 10) as u8)
    }
}

/// Appends the decimal digits of `n`.
fn push_dec(out: &mut Vec<u8>, n: u64)
    ensures
        final(out)@ == old(out)@ + dec(n as nat),
    decreases n,
{
    if n >= 10 {
        push_dec(out, n / 10);
    }
    let ghost mid = out@;
    out.push(48 + (n % 10) as u8);
    assert(out@ =~= old(out)@ + dec(n as nat)) by {
        if n >= 10 {
            assert(mid =~= old(out)@ + dec((n / 10) as nat));
        }
    }
}

/// Appends the last `w` decimal digits of `n`.
fn push_padded(out: &mut Vec<u8>, n: u64, w: u32)
    ensures
        final(out)@ == old(out)@ + padded(n as nat, w as nat),
    decreases w,
{
    if w > 0 {
        push_padded(out, n / 10, w - 1);
        out.push(48 + (n % 10) as u8);
        assert(out@ =~= old(out)@ + padded(n as nat, w as nat));
    } else {
        assert(out@ =~= old(out)@ + padded(n as nat, w as nat));
    }
}

/// Nanoseconds in a second.
pub const NANOS_PER_SEC: u64 = 1_000_000_000;

/// An elapsed time in seconds: whole seconds, a decimal point (byte 46),
/// then nine fractional digits.
pub open spec fn seconds_text(nanos: nat) -> Seq<u8> {
    dec(nanos / NANOS_PER_SEC as nat) + seq![46u8] + padded(nanos % NANOS_PER_SEC as nat, 9)
}

/// The header that opens the part carrying a frame of `len` bytes, sent
/// `nanos` nanoseconds after the emitter's reference point.
pub open spec fn part_header(len: nat, nanos: nat) -> Seq<u8> {
    ascii("--frame\r\nContent-Type: image/jpeg\r\nContent-Length: "@) + dec(len) + ascii(
        "\r\nX-Timestamp: "@,
    ) + seconds_text(nanos) + ascii("\r\n\r\n"@)
}

/// The multipart part that carries `frame`: its header, the frame verbatim,
/// and the separator that ends the part.
pub open spec fn part(frame: Seq<u8>, nanos: nat) -> Seq<u8> {
    part_header(frame.len(), nanos) + frame + ascii("\r\n"@)
}

/// Encodes `frame` as one multipart part, stamped with the time elapsed
/// since the emitter's reference point.
pub fn encode_part(frame: &[u8], elapsed_nanos: u64) -> (r: Vec<u8>)
    ensures
        r@ == part(frame@, elapsed_nanos as nat),
{
    proof {
        reveal_strlit("--frame\r\nContent-Type: image/jpeg\r\nContent-Length: ");
        reveal_strlit("\r\nX-Timestamp: ");
        reveal_strlit("\r\n\r\n");
        reveal_strlit("\r\n");
    }
    let mut r: Vec<u8> = Vec::new();
    push_ascii(&mut r, "--frame\r\nContent-Type: image/jpeg\r\nContent-Length: ");
    push_dec(&mut r, frame.len() as u64);
    push_ascii(&mut r, "\r\nX-Timestamp: ");
    push_dec(&mut r, elapsed_nanos / NANOS_PER_SEC);
    r.push(46u8);  // the decimal point
    push_padded(&mut r, elapsed_nanos % NANOS_PER_SEC, 9);
    push_ascii(&mut r, "\r\n\r\n");
    let ghost head = r@;
    assert(head =~= part_header(frame@.len(), elapsed_nanos as nat));
    let mut i: usize = 0;
    while i < frame.len()
        invariant
            i <= frame@.len(),
            r@ == head + frame@.subrange(0, i as int),
        decreases frame@.len() - i,
    {
        r.push(frame[i]);
        assert(r@ =~= head + frame@.subrange(0, i + 1));
        i = i + 1;
    }
    assert(frame@.subrange(0, frame@.len() as int) =~= frame@);
    push_ascii(&mut r, "\r\n");
    assert(r@ =~= part(frame@, elapsed_nanos as nat));
    r
}

} // verus!
