//! Length-prefixed binary framing for socket transports: a frame is a
//! four-byte little-endian payload length followed by the payload, with a
//! hard cap on the payload size.

use vstd::prelude::*;

verus! {

broadcast use vstd::seq::group_seq_axioms;

/// The little-endian four-byte rendering of a length.
pub open spec fn u32_le_bytes(n: u32) -> Seq<u8> {
    seq![
        (n % 256) as u8,
        ((n / 256) % 256) as u8,
        ((n / 65536) % 256) as u8,
        ((n / 16777216) % 256) as u8,
    ]
}

/// The length read from four little-endian bytes.
pub open spec fn le_u32(b0: u8, b1: u8, b2: u8, b3: u8) -> int {
    b0 + b1 * 256 + b2 * 65536 + b3 * 16777216
}

/// Reading back the four little-endian bytes of a length yields the length.
pub proof fn lemma_le_roundtrip(n: u32)
    ensures
        le_u32(
            u32_le_bytes(n)[0],
            u32_le_bytes(n)[1],
            u32_le_bytes(n)[2],
            u32_le_bytes(n)[3],
        ) == n,
{
    assert((n % 256) + ((n / 256) % 256) * 256 + ((n / 65536) % 256) * 65536 + ((n / 16777216)
        % 256) * 16777216 == n) by (nonlinear_arith);
}

/// An encoded frame: the payload length in four little-endian bytes, then the
/// payload.
pub open spec fn frame_of(payload: Seq<u8>) -> Seq<u8> {
    u32_le_bytes(payload.len() as u32) + payload
}

/// Encodes one frame; a payload over the cap is refused.
pub fn encode_frame(payload: &Vec<u8>, max_message_size: usize) -> (r: Result<Vec<u8>, ()>)
    ensures
        match r {
            Ok(out) => payload@.len() <= max_message_size && payload@.len() <= u32::MAX && out@
                == frame_of(payload@),
            Err(_) => payload@.len() > max_message_size || payload@.len() > u32::MAX,
        },
{
    if payload.len() > max_message_size {
        return Err(());
    }
    if payload.len() > u32::MAX as usize {
        return Err(());
    }
    let n = payload.len() as u32;
    let mut out: Vec<u8> = Vec::new();
    out.push((n % 256) as u8);
    out.push(((n / 256) % 256) as u8);
    out.push(((n / 65536) % 256) as u8);
    out.push(((n / 16777216) % 256) as u8);
    let mut i: usize = 0;
    while i < payload.len()
        invariant
            0 <= i <= payload@.len(),
            payload@.len() == n,
            out@.len() == 4 + i,
            out@.subrange(0, 4) =~= u32_le_bytes(n),
            out@.subrange(4, out@.len() as int) =~= payload@.take(i as int),
        decreases payload@.len() - i,
    {
        out.push(payload[i]);
        proof {
            assert(out@.subrange(0, 4) =~= u32_le_bytes(n));
            assert(out@.subrange(4, out@.len() as int) =~= payload@.take(i as int + 1));
        }
        i += 1;
    }
    proof {
        assert(payload@.take(payload@.len() as int) =~= payload@);
        assert(out@ =~= frame_of(payload@));
    }
    Ok(out)
}

/// Decodes the first frame of a buffer: `None` when the buffer does not yet
/// hold a whole frame; the declared payload length and the payload when it
/// does; an error when the declared length exceeds the cap. The second result
/// component is the number of bytes consumed.
pub fn decode_frame(buf: &Vec<u8>, max_message_size: usize) -> (r: Result<
    Option<(Vec<u8>, usize)>,
    (),
>)
    ensures
        buf@.len() < 4 ==> (r matches Ok(o) && o is None),
        buf@.len() >= 4 ==> {
            let size = le_u32(buf@[0], buf@[1], buf@[2], buf@[3]);
            if size > max_message_size {
                r is Err
            } else if buf@.len() < 4 + size {
                (r matches Ok(o) && o is None)
            } else {
                (r matches Ok(o) && o matches Some(p) && p.0@ == buf@.subrange(4, 4 + size) && p.1
                    == 4 + size)
            }
        },
{
    if buf.len() < 4 {
        return Ok(None);
    }
    let size_u: u64 = buf[0] as u64 + buf[1] as u64 * 256 + buf[2] as u64 * 65536 + buf[3] as u64
        * 16777216;
    if size_u > max_message_size as u64 {
        return Err(());
    }
    let size = size_u as usize;
    if (buf.len() as u128) < 4u128 + size_u as u128 {
        return Ok(None);
    }
    proof {
        assert(4 + size <= buf@.len());
    }
    let mut message: Vec<u8> = Vec::new();
    let mut i: usize = 0;
    while i < size
        invariant
            0 <= i <= size,
            4 + size <= buf@.len(),
            buf@.len() <= usize::MAX,
            message@ =~= buf@.subrange(4, 4 + i as int),
        decreases size - i,
    {
        message.push(buf[4 + i]);
        proof {
            assert(message@ =~= buf@.subrange(4, 4 + i as int + 1));
        }
        i += 1;
    }
    Ok(Some((message, 4 + size)))
}

} // verus!
