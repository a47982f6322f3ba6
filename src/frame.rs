use vstd::prelude::*;

use crate::error::TransportError;

verus! {

/// The largest payload a frame can carry.
pub const MAX_PAYLOAD: u64 = 0xffff_ffff;

/// The four big-endian bytes of `n`.
pub open spec fn be32_bytes(n: u32) -> Seq<u8> {
    seq![
        (n / 0x100_0000) as u8,
        ((n / 0x1_0000) % 256) as u8,
        ((n / 0x100) % 256) as u8,
        (n % 256) as u8,
    ]
}

/// The number that four big-endian bytes stand for.
pub open spec fn be32_value(b: Seq<u8>) -> int {
    b[0] as int * 0x100_0000 + b[1] as int * 0x1_0000 + b[2] as int * 0x100 + b[3] as int
}

/// The frame that carries `payload`: its length, then the payload itself.
pub open spec fn frame_bytes(payload: Seq<u8>) -> Seq<u8> {
    be32_bytes(payload.len() as u32) + payload
}

/// The payload of the first frame in `buf`, if the whole frame is there.
pub open spec fn first_payload(buf: Seq<u8>) -> Option<Seq<u8>> {
    if buf.len() >= 4 && buf.len() - 4 >= be32_value(buf) {
        Some(buf.subrange(4, 4 + be32_value(buf)))
    } else {
        None
    }
}

/// What decoding the front of a buffer found.
#[derive(Debug)]
pub enum Decoded {
    /// A whole frame: its payload, and how many bytes of the buffer it took.
    Frame { payload: Vec<u8>, consumed: usize },
    /// Not a whole frame yet; more bytes may complete it.
    Incomplete,
    /// The stream ended on a frame boundary.
    EndOfStream,
}

pub(crate) proof fn lemma_be32_round_trip(n: u32)
    ensures
        be32_value(be32_bytes(n)) == n,
{
    let a = n / 0x100_0000;
    let b = (n / 0x1_0000) % 256;
    let c = (n / 0x100) % 256;
    let d = n % 256;
    assert(a * 0x100_0000 + b * 0x1_0000 + c * 0x100 + d == n) by (nonlinear_arith)
        requires
            a == n / 0x100_0000,
            b == (n / 0x1_0000) % 256,
            c == (n / 0x100) % 256,
            d == n % 256,
    ;
    assert(a < 256) by (nonlinear_arith)
        requires
            a == n / 0x100_0000,
            n <= 0xffff_ffff,
    ;
}

pub(crate) proof fn lemma_be32_inverse(b: Seq<u8>)
    requires
        b.len() == 4,
    ensures
        0 <= be32_value(b) <= 0xffff_ffff,
        be32_bytes(be32_value(b) as u32) =~= b,
{
    let (b0, b1, b2, b3) = (b[0] as int, b[1] as int, b[2] as int, b[3] as int);
    let v = be32_value(b);
    assert(0 <= v <= 0xffff_ffff) by (nonlinear_arith)
        requires
            v == b0 * 0x100_0000 + b1 * 0x1_0000 + b2 * 0x100 + b3,
            0 <= b0 < 256,
            0 <= b1 < 256,
            0 <= b2 < 256,
            0 <= b3 < 256,
    ;
    assert(v / 0x100_0000 == b0 && (v / 0x1_0000) % 256 == b1 && (v / 0x100) % 256 == b2 && v % 256
        == b3) by (nonlinear_arith)
        requires
            v == b0 * 0x100_0000 + b1 * 0x1_0000 + b2 * 0x100 + b3,
            0 <= b0 < 256,
            0 <= b1 < 256,
            0 <= b2 < 256,
            0 <= b3 < 256,
    ;
}

/// Reads four big-endian bytes of `b` from `pos`.
pub(crate) fn read_be32(b: &Vec<u8>, pos: usize) -> (r: u32)
    requires
        pos + 4 <= b@.len(),
    ensures
        r == be32_value(b@.subrange(pos as int, pos + 4)),
{
    proof {
        lemma_be32_inverse(b@.subrange(pos as int, pos + 4));
    }
    // The length of a `Vec` fits a `usize`: this brings that bound into the proof.
    let _len = b.len();
    (b[pos] as u64 * 0x100_0000 + b[pos + 1] as u64 * 0x1_0000 + b[pos + 2] as u64 * 0x100
        + b[pos + 3] as u64) as u32
}

/// Appends the four big-endian bytes of `n` to `out`.
pub(crate) fn push_be32(out: &mut Vec<u8>, n: u32)
    ensures
        final(out)@ == old(out)@ + be32_bytes(n),
{
    out.push((n / 0x100_0000) as u8);
    out.push(((n / 0x1_0000) % 256) as u8);
    out.push(((n / 0x100) % 256) as u8);
    out.push((n % 256) as u8);
    assert(final(out)@ =~= old(out)@ + be32_bytes(n));
}

/// Decoding the bytes of a frame, with anything after it, gives back its payload.
pub proof fn lemma_frame_round_trip(payload: Seq<u8>, rest: Seq<u8>)
    requires
        payload.len() <= MAX_PAYLOAD,
    ensures
        first_payload(frame_bytes(payload) + rest) == Some(payload),
{
    lemma_be32_round_trip(payload.len() as u32);
    let buf = frame_bytes(payload) + rest;
    assert(buf.subrange(0, 4) =~= be32_bytes(payload.len() as u32));
    assert(be32_value(buf) == payload.len());
    assert(buf.subrange(4, 4 + payload.len() as int) =~= payload);
}

/// Frames `payload`: its length as four big-endian bytes, then the payload.
pub fn encode(payload: &Vec<u8>) -> (r: Result<Vec<u8>, TransportError>)
    ensures
        payload@.len() <= MAX_PAYLOAD ==> (r matches Ok(bytes) && bytes@ == frame_bytes(payload@)),
        payload@.len() > MAX_PAYLOAD ==> r == Err::<Vec<u8>, TransportError>(
            TransportError::FrameTooLarge,
        ),
{
    if payload.len() as u64 > MAX_PAYLOAD {
        return Err(TransportError::FrameTooLarge);
    }
    let n = payload.len() as u32;
    let mut out: Vec<u8> = Vec::new();
    push_be32(&mut out, n);
    assert(out@ =~= be32_bytes(n) + payload@.subrange(0, 0));
    let mut i: usize = 0;
    while i < payload.len()
        invariant
            i <= payload@.len(),
            out@ == be32_bytes(n) + payload@.subrange(0, i as int),
        decreases payload@.len() - i,
    {
        out.push(payload[i]);
        i = i + 1;
        assert(out@ =~= be32_bytes(n) + payload@.subrange(0, i as int));
    }
    assert(payload@.subrange(0, i as int) =~= payload@);
    Ok(out)
}

/// Reads the first frame of `buf`, where `stream_ended` says no byte will follow those in `buf`.
pub fn decode(buf: &Vec<u8>, stream_ended: bool) -> (r: Result<Decoded, TransportError>)
    ensures
        first_payload(buf@) matches Some(p) ==> (r matches Ok(Decoded::Frame { payload, consumed })
            && payload@ == p && consumed == 4 + p.len()),
        first_payload(buf@) is None && !stream_ended ==> r matches Ok(Decoded::Incomplete),
        first_payload(buf@) is None && stream_ended && buf@.len() == 0 ==> r matches Ok(
            Decoded::EndOfStream,
        ),
        first_payload(buf@) is None && stream_ended && buf@.len() > 0 ==> r == Err::<
            Decoded,
            TransportError,
        >(TransportError::TruncatedFrame),
{
    if buf.len() < 4 {
        if !stream_ended {
            return Ok(Decoded::Incomplete);
        } else if buf.len() == 0 {
            return Ok(Decoded::EndOfStream);
        } else {
            return Err(TransportError::TruncatedFrame);
        }
    }
    let n: u64 = read_be32(buf, 0) as u64;
    assert(buf@.subrange(0, 4) =~= buf@.take(4));
    if (buf.len() - 4) as u64 >= n {
        let end = 4 + n as usize;
        let mut payload: Vec<u8> = Vec::new();
        let mut i: usize = 4;
        while i < end
            invariant
                4 <= i <= end,
                end <= buf@.len(),
                payload@ == buf@.subrange(4, i as int),
            decreases end - i,
        {
            payload.push(buf[i]);
            i = i + 1;
            assert(payload@ =~= buf@.subrange(4, i as int));
        }
        Ok(Decoded::Frame { payload, consumed: end })
    } else if !stream_ended {
        Ok(Decoded::Incomplete)
    } else {
        Err(TransportError::TruncatedFrame)
    }
}

} // verus!
