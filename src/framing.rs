//! Length-prefixed framing of relay messages on a byte stream: each message
//! is its length as four big-endian bytes, then its bytes.

use vstd::prelude::*;

verus! {

/// The largest message body a relay frame may declare: 1 MiB.
pub const MAX_FRAME_LEN: u32 = 1048576;

/// The four big-endian bytes of `n`.
pub open spec fn be32(n: nat) -> Seq<u8> {
    seq![
        ((n / 16777216) % 256) as u8,
        ((n / 65536) % 256) as u8,
        ((n / 256) % 256) as u8,
        (n % 256) as u8,
    ]
}

/// The number that four big-endian bytes denote.
pub open spec fn be32_value(b: Seq<u8>) -> nat {
    (b[0] as nat) * 16777216 + (b[1] as nat) * 65536 + (b[2] as nat) * 256 + (b[3] as nat)
}

/// The frame of a message body.
pub open spec fn frame_spec(body: Seq<u8>) -> Seq<u8> {
    be32(body.len()) + body
}

/// What reading a frame from the front of a buffer found.
#[derive(Clone, Debug, PartialEq, Eq)]
pub enum FrameRead {
    /// A whole frame: its body, and how many bytes of the buffer it took.
    Frame(Vec<u8>, usize),
    /// The buffer holds only the start of a frame.
    Incomplete,
    /// The frame declares a body longer than the bound.
    TooLarge,
}

/// What reading a frame from the front of `buf`, with bodies bounded by
/// `max`, finds.
pub open spec fn read_spec(buf: Seq<u8>, max: nat) -> Option<(Seq<u8>, nat)> {
    if buf.len() >= 4 && be32_value(buf) <= max && buf.len() >= 4 + be32_value(buf) {
        Some((buf.subrange(4, 4 + be32_value(buf) as int), 4 + be32_value(buf)))
    } else {
        None
    }
}

proof fn lemma_be32(n: nat)
    requires
        n < 4294967296,
    ensures
        be32_value(be32(n)) == n,
{
    let b = be32(n);
    assert(n == ((n / 16777216) % 256) * 16777216 + ((n / 65536) % 256) * 65536 + ((n / 256) % 256)
        * 256 + n % 256) by (nonlinear_arith)
        requires
            n < 4294967296,
    ;
}

/// Frames a message body.
pub fn encode_frame(body: &[u8]) -> (r: Vec<u8>)
    requires
        body@.len() < 4294967296,
    ensures
        r@ == frame_spec(body@),
{
    let n = body.len() as u64;
    let mut r: Vec<u8> = Vec::new();
    r.push(((n / 16777216) % 256) as u8);
    r.push(((n / 65536) % 256) as u8);
    r.push(((n / 256) % 256) as u8);
    r.push((n % 256) as u8);
    let mut i: usize = 0;
    while i < body.len()
        invariant
            0 <= i <= body@.len(),
            r@ == be32(body@.len()) + body@.subrange(0, i as int),
        decreases body@.len() - i,
    {
        r.push(body[i]);
        proof {
            assert(body@.subrange(0, i + 1) =~= body@.subrange(0, i as int).push(body@[i as int]));
        }
        i = i + 1;
    }
    proof {
        assert(body@.subrange(0, body@.len() as int) =~= body@);
    }
    r
}

/// Reads one frame from the front of `buf`, with bodies bounded by `max`.
pub fn decode_frame(buf: &[u8], max: u32) -> (r: FrameRead)
    ensures
        match r {
            FrameRead::Frame(b, n) => read_spec(buf@, max as nat) == Some((b@, n as nat)),
            FrameRead::Incomplete => read_spec(buf@, max as nat) is None && (buf@.len() < 4
                || buf@.len() < 4 + be32_value(buf@)),
            FrameRead::TooLarge => read_spec(buf@, max as nat) is None && buf@.len() >= 4
                && be32_value(buf@) > max,
        },
{
    if buf.len() < 4 {
        return FrameRead::Incomplete;
    }
    let len: u64 = (buf[0] as u64) * 16777216 + (buf[1] as u64) * 65536 + (buf[2] as u64) * 256
        + (buf[3] as u64);
    if len > max as u64 {
        return FrameRead::TooLarge;
    }
    if (buf.len() as u64) < 4 + len {
        return FrameRead::Incomplete;
    }
    let total = (4 + len) as usize;
    let mut body: Vec<u8> = Vec::new();
    let mut i: usize = 4;
    while i < total
        invariant
            4 <= i <= total <= buf@.len(),
            body@ == buf@.subrange(4, i as int),
        decreases total - i,
    {
        body.push(buf[i]);
        proof {
            assert(buf@.subrange(4, i + 1) =~= buf@.subrange(4, i as int).push(buf@[i as int]));
        }
        i = i + 1;
    }
    FrameRead::Frame(body, total)
}

/// Reading back a framed body, whatever follows it in the buffer, gives the
/// body and the length of its frame.
pub proof fn lemma_frame_round_trip(body: Seq<u8>, rest: Seq<u8>, max: nat)
    requires
        body.len() <= max,
        max < 4294967296,
    ensures
        read_spec(frame_spec(body) + rest, max) == Some((body, body.len() + 4)),
{
    let buf = frame_spec(body) + rest;
    lemma_be32(body.len());
    assert(be32_value(buf) == be32_value(be32(body.len())));
    assert(buf.subrange(4, 4 + body.len() as int) =~= body);
}

} // verus!
