use vstd::prelude::*;

verus! {

/// The largest payload that a reader accepts in one frame.
pub const MAX_FRAME_LEN: u32 = 65536;

/// The four little-endian bytes of `x`.
pub open spec fn le_bytes(x: u32) -> Seq<u8> {
    seq![
        (x % 256) as u8,
        ((x / 256) % 256) as u8,
        ((x / 65536) % 256) as u8,
        ((x / 16777216) % 256) as u8,
    ]
}

/// The number that four little-endian bytes write.
pub open spec fn le_value(b: Seq<u8>) -> nat {
    (b[0] + 256 * b[1] + 65536 * b[2] + 16777216 * b[3]) as nat
}

/// A frame on a stream: the payload's length as a little-endian `u32` (the
/// length's low 32 bits, as `as u32` keeps them), then the payload.
pub open spec fn frame_of(payload: Seq<u8>) -> Seq<u8> {
    le_bytes(payload.len() as u32) + payload
}

/// The frame that carries `payload`.
pub fn encode_frame(payload: &[u8]) -> (f: Vec<u8>)
    ensures
        f@ == frame_of(payload@),
{
    let plen: usize = payload.len();
    let len = plen as u32;
    let mut f: Vec<u8> = Vec::new();
    f.push((len % 256) as u8);
    f.push(((len / 256) % 256) as u8);
    f.push(((len / 65536) % 256) as u8);
    f.push(((len / 16777216) % 256) as u8);
    let n = payload.len();
    let mut k: usize = 0;
    while k < n
        invariant
            n == payload@.len(),
            k <= n,
            f@ == le_bytes(len) + payload@.subrange(0, k as int),
        decreases n - k,
    {
        f.push(payload[k]);
        k = k + 1;
        assert(f@ =~= le_bytes(len) + payload@.subrange(0, k as int));
    }
    assert(payload@.subrange(0, n as int) =~= payload@);
    f
}

/// The payload length that a frame header announces, or `None` when it is
/// more than [`MAX_FRAME_LEN`] and the reader gives up on the stream.
pub fn frame_length(header: [u8; 4]) -> (r: Option<usize>)
    ensures
        le_value(header@) <= MAX_FRAME_LEN ==> r == Some(le_value(header@) as usize),
        le_value(header@) > MAX_FRAME_LEN ==> r is None,
{
    let v: u32 = header[0] as u32 + 256 * (header[1] as u32) + 65536 * (header[2] as u32) + 16777216 * (
    header[3] as u32);
    if v > MAX_FRAME_LEN {
        None
    } else {
        Some(v as usize)
    }
}

/// The length written in a header reads back as that length.
proof fn lemma_header_round_trip(len: u32)
    ensures
        le_value(le_bytes(len)) == len,
{
    let b0: u32 = len % 256;
    let b1: u32 = (len / 256) % 256;
    let b2: u32 = (len / 65536) % 256;
    let b3: u32 = (len / 16777216) % 256;
    assert(b0 + 256 * b1 + 65536 * b2 + 16777216 * b3 == len) by (bit_vector)
        requires
            b0 == len % 256,
            b1 == (len / 256) % 256,
            b2 == (len / 65536) % 256,
            b3 == (len / 16777216) % 256,
    ;
    assert(le_bytes(len)[0] == b0 && le_bytes(len)[1] == b1 && le_bytes(len)[2] == b2 && le_bytes(len)[3] == b3);
}

/// What a reader gets back of a frame: a frame written for a payload of at
/// most [`MAX_FRAME_LEN`] bytes starts with a header that announces exactly
/// the payload's length, and the payload follows it unchanged.
pub proof fn law_frame_round_trip(payload: Seq<u8>)
    requires
        payload.len() <= MAX_FRAME_LEN,
    ensures
        le_value(frame_of(payload).subrange(0, 4)) == payload.len(),
        le_value(frame_of(payload).subrange(0, 4)) <= MAX_FRAME_LEN,
        frame_of(payload).subrange(4, frame_of(payload).len() as int) == payload,
{
    let len = payload.len() as u32;
    lemma_header_round_trip(len);
    assert(frame_of(payload).subrange(0, 4) =~= le_bytes(len));
    assert(frame_of(payload).subrange(4, frame_of(payload).len() as int) =~= payload);
}

} // verus!
