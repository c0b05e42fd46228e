//! Length-delimited frames: a 4-byte big-endian length followed by the payload.

use vstd::prelude::*;

verus! {

/// Largest payload a frame may announce: 16 MiB.
pub const MAX_FRAME_LEN: usize = 16777216;

/// Bytes in a frame header.
pub const HEADER_LEN: usize = 4;

/// The value of four bytes read as a big-endian unsigned integer.
pub open spec fn be_value(b: Seq<u8>) -> nat
    recommends
        b.len() == 4,
{
    (b[0] as nat) * 16777216 + (b[1] as nat) * 65536 + (b[2] as nat) * 256 + (b[3] as nat)
}

/// The four big-endian bytes of `n`.
pub open spec fn be_bytes(n: nat) -> Seq<u8>
    recommends
        n < 4294967296,
{
    seq![
        (n / 16777216) as u8,
        ((n / 65536) % 256) as u8,
        ((n / 256) % 256) as u8,
        (n % 256) as u8,
    ]
}

/// The frame that carries `payload`.
pub open spec fn frame_of(payload: Seq<u8>) -> Seq<u8> {
    be_bytes(payload.len()) + payload
}

/// Why a frame cannot be read or written.
#[derive(Debug, Clone, Copy, PartialEq, Eq)]
pub enum FrameError {
    /// The frame announces or holds more than `MAX_FRAME_LEN` bytes.
    TooLarge(u64),
}

/// What the start of a byte buffer holds, read as frames.
pub enum FrameRead {
    /// Fewer bytes than the next frame needs.
    Incomplete,
    /// One whole frame: its payload, and how many bytes it took.
    Complete(Vec<u8>, usize),
}

pub proof fn lemma_be_round_trip(n: nat)
    requires
        n < 4294967296,
    ensures
        be_value(be_bytes(n)) == n,
        be_bytes(n).len() == 4,
{
    let b = be_bytes(n);
    assert(b[0] as nat == n / 16777216);
    assert(b[1] as nat == (n / 65536) % 256);
    assert(b[2] as nat == (n / 256) % 256);
    assert(b[3] as nat == n % 256);
    assert((n / 16777216) * 16777216 + ((n / 65536) % 256) * 65536 + ((n / 256) % 256) * 256 + n
        % 256 == n) by (nonlinear_arith)
        requires
            n >= 0,
    ;
}

/// The length that a frame header announces, provided it respects the cap.
pub fn frame_length(header: [u8; 4]) -> (r: Result<usize, FrameError>)
    ensures
        be_value(header@) <= MAX_FRAME_LEN ==> r == Ok::<usize, FrameError>(
            be_value(header@) as usize,
        ),
        be_value(header@) > MAX_FRAME_LEN ==> r == Err::<usize, FrameError>(
            FrameError::TooLarge(be_value(header@) as u64),
        ),
{
    let b0 = header[0] as u64;
    let b1 = header[1] as u64;
    let b2 = header[2] as u64;
    let b3 = header[3] as u64;
    let len: u64 = b0 * 16777216 + b1 * 65536 + b2 * 256 + b3;
    if len > MAX_FRAME_LEN as u64 {
        Err(FrameError::TooLarge(len))
    } else {
        Ok(len as usize)
    }
}

/// The frame that carries `payload`, unless it is larger than the cap.
pub fn encode_frame(payload: &[u8]) -> (r: Result<Vec<u8>, FrameError>)
    ensures
        payload@.len() <= MAX_FRAME_LEN ==> (r matches Ok(f) && f@ == frame_of(payload@)),
        payload@.len() > MAX_FRAME_LEN ==> r == Err::<Vec<u8>, FrameError>(
            FrameError::TooLarge(payload@.len() as u64),
        ),
{
    let n = payload.len();
    if n > MAX_FRAME_LEN {
        return Err(FrameError::TooLarge(n as u64));
    }
    let mut out: Vec<u8> = Vec::new();
    out.push((n / 16777216) as u8);
    out.push(((n / 65536) % 256) as u8);
    out.push(((n / 256) % 256) as u8);
    out.push((n % 256) as u8);
    assert(out@ =~= be_bytes(n as nat));
    let mut i: usize = 0;
    while i < n
        invariant
            n == payload@.len(),
            i <= n,
            out@ =~= be_bytes(n as nat) + payload@.subrange(0, i as int),
        decreases n - i,
    {
        out.push(payload[i]);
        i = i + 1;
        assert(out@ =~= be_bytes(n as nat) + payload@.subrange(0, i as int));
    }
    assert(payload@.subrange(0, n as int) =~= payload@);
    Ok(out)
}

/// The result of reading the start of `buf` as a frame.
pub open spec fn read_outcome(buf: Seq<u8>) -> Option<Option<(Seq<u8>, nat)>> {
    if buf.len() < 4 {
        Some(None)
    } else if be_value(buf.subrange(0, 4)) > MAX_FRAME_LEN {
        None
    } else if buf.len() < 4 + be_value(buf.subrange(0, 4)) {
        Some(None)
    } else {
        let end = 4 + be_value(buf.subrange(0, 4));
        Some(Some((buf.subrange(4, end as int), end)))
    }
}

/// Reads one frame from the start of `buf`: `Incomplete` until the header and
/// the whole payload are there, and an error as soon as the header announces
/// more than the cap.
pub fn decode_frame(buf: &[u8]) -> (r: Result<FrameRead, FrameError>)
    ensures
        read_outcome(buf@) is None <==> r is Err,
        r matches Err(FrameError::TooLarge(n)) ==> n == be_value(buf@.subrange(0, 4)),
        read_outcome(buf@) == Some(None::<(Seq<u8>, nat)>) <==> r == Ok::<FrameRead, FrameError>(
            FrameRead::Incomplete,
        ),
        r matches Ok(FrameRead::Complete(p, n)) ==> read_outcome(buf@) == Some(
            Some((p@, n as nat)),
        ),
{
    if buf.len() < HEADER_LEN {
        return Ok(FrameRead::Incomplete);
    }
    let header: [u8; 4] = [buf[0], buf[1], buf[2], buf[3]];
    assert(header@ =~= buf@.subrange(0, 4));
    let len = match frame_length(header) {
        Ok(len) => len,
        Err(e) => {
            return Err(e);
        },
    };
    if buf.len() - HEADER_LEN < len {
        return Ok(FrameRead::Incomplete);
    }
    let end = HEADER_LEN + len;
    let mut payload: Vec<u8> = Vec::new();
    let mut i: usize = HEADER_LEN;
    while i < end
        invariant
            end == HEADER_LEN + len,
            end <= buf@.len(),
            HEADER_LEN <= i <= end,
            payload@ =~= buf@.subrange(HEADER_LEN as int, i as int),
        decreases end - i,
    {
        payload.push(buf[i]);
        i = i + 1;
        assert(payload@ =~= buf@.subrange(HEADER_LEN as int, i as int));
    }
    Ok(FrameRead::Complete(payload, end))
}

/// A frame read back from the bytes that `encode_frame` wrote gives the
/// payload it was made from, whatever follows it in the buffer.
pub proof fn lemma_frame_round_trip(payload: Seq<u8>, rest: Seq<u8>)
    requires
        payload.len() <= MAX_FRAME_LEN,
    ensures
        read_outcome(frame_of(payload) + rest) == Some(
            Some((payload, (4 + payload.len()) as nat)),
        ),
{
    let buf = frame_of(payload) + rest;
    lemma_be_round_trip(payload.len());
    assert(buf.subrange(0, 4) =~= be_bytes(payload.len()));
    assert(buf.subrange(4, 4 + payload.len() as int) =~= payload);
}

/// A header that announces one byte more than the cap is refused.
pub proof fn lemma_oversized_frame_refused(buf: Seq<u8>)
    requires
        buf.len() >= 4,
        be_value(buf.subrange(0, 4)) == MAX_FRAME_LEN + 1,
    ensures
        read_outcome(buf) is None,
{
}

} // verus!
