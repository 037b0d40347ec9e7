//! Length-delimited framing over a duplex byte stream.
//!
//! Every message travels as one packet: a 4-byte big-endian length prefix
//! followed by that many payload bytes. The shell that owns the socket
//! sends what [`encode_frame`] builds and feeds received bytes to
//! [`try_deframe`], which yields one whole payload as soon as the buffer
//! holds it; the codec layers above only ever see whole frames.

use vstd::prelude::*;
use vstd::slice::slice_to_vec;

verus! {

/// The big-endian 4-byte encoding of a frame length.
pub open spec fn spec_u32_to_be_bytes(x: u32) -> Seq<u8> {
    seq![
        (((x >> 24) & 0xff) as u8),
        (((x >> 16) & 0xff) as u8),
        (((x >> 8) & 0xff) as u8),
        ((x & 0xff) as u8),
    ]
}

/// The frame length four big-endian bytes encode.
pub open spec fn spec_u32_from_be_bytes(s: Seq<u8>) -> u32
    recommends
        s.len() == 4,
{
    ((s[0] as u32) << 24) | ((s[1] as u32) << 16) | ((s[2] as u32) << 8) | (s[3] as u32)
}

/// Reading the four length bytes back yields the length that was written.
pub proof fn lemma_u32_be_bytes_round_trip(x: u32)
    ensures
        spec_u32_from_be_bytes(spec_u32_to_be_bytes(x)) == x,
{
    let s = spec_u32_to_be_bytes(x);
    let b0 = s[0];
    let b1 = s[1];
    let b2 = s[2];
    let b3 = s[3];
    assert(b0 == ((x >> 24) & 0xff) as u8 && b1 == ((x >> 16) & 0xff) as u8 && b2 == ((x >> 8)
        & 0xff) as u8 && b3 == (x & 0xff) as u8 ==> ((b0 as u32) << 24) | ((b1 as u32) << 16) | ((
    b2 as u32) << 8) | (b3 as u32) == x) by (bit_vector);
}

/// The packet that carries a payload: its length, big-endian, then its
/// bytes.
pub open spec fn spec_frame(payload: Seq<u8>) -> Seq<u8>
    recommends
        payload.len() < 0x1_0000_0000,
{
    spec_u32_to_be_bytes(payload.len() as u32) + payload
}

/// The first whole packet at the head of a buffer, if the buffer holds
/// one: its payload and the number of bytes the packet occupies.
pub open spec fn spec_deframe(s: Seq<u8>) -> Option<(Seq<u8>, int)> {
    if s.len() >= 4 {
        let n = spec_u32_from_be_bytes(s.subrange(0, 4)) as int;
        if s.len() >= 4 + n {
            Some((s.subrange(4, 4 + n), 4 + n))
        } else {
            None
        }
    } else {
        None
    }
}

/// Deframing a framed payload yields the payload and consumes exactly its
/// packet, whatever bytes follow it.
pub proof fn lemma_frame_round_trip(payload: Seq<u8>, rest: Seq<u8>)
    requires
        payload.len() < 0x1_0000_0000,
    ensures
        spec_deframe(spec_frame(payload) + rest) == Some(
            (payload, 4 + payload.len() as int),
        ),
{
    lemma_u32_be_bytes_round_trip(payload.len() as u32);
    let s = spec_frame(payload) + rest;
    assert(s.subrange(0, 4) =~= spec_u32_to_be_bytes(payload.len() as u32));
    assert(s.subrange(4, 4 + payload.len() as int) =~= payload);
}

/// Build the packet that carries one payload.
pub fn encode_frame(payload: &Vec<u8>) -> (r: Vec<u8>)
    requires
        payload@.len() < 0x1_0000_0000,
    ensures
        r@ == spec_frame(payload@),
{
    let n = payload.len() as u32;
    let mut out: Vec<u8> = Vec::new();
    out.push(((n >> 24) & 0xff) as u8);
    out.push(((n >> 16) & 0xff) as u8);
    out.push(((n >> 8) & 0xff) as u8);
    out.push((n & 0xff) as u8);
    let mut body = slice_to_vec(payload.as_slice());
    out.append(&mut body);
    proof {
        assert(out@ =~= spec_frame(payload@));
    }
    out
}

/// Extract the first whole packet from a receive buffer: its payload and
/// the number of bytes to discard from the buffer front. `None` when the
/// buffer does not yet hold a whole packet.
pub fn try_deframe(buf: &[u8]) -> (r: Option<(Vec<u8>, usize)>)
    ensures
        match r {
            Some((payload, consumed)) => spec_deframe(buf@) == Some(
                (payload@, consumed as int),
            ) && consumed <= buf@.len(),
            None => spec_deframe(buf@) is None,
        },
{
    if buf.len() < 4 {
        return None;
    }
    let n = ((buf[0] as u32) << 24) | ((buf[1] as u32) << 16) | ((buf[2] as u32) << 8) | (
    buf[3] as u32);
    proof {
        assert(buf@.subrange(0, 4)[0] == buf@[0]);
        assert(buf@.subrange(0, 4)[1] == buf@[1]);
        assert(buf@.subrange(0, 4)[2] == buf@[2]);
        assert(buf@.subrange(0, 4)[3] == buf@[3]);
    }
    let n_usize = n as usize;
    if buf.len() - 4 < n_usize {
        return None;
    }
    let payload = slice_to_vec(&buf[4..4 + n_usize]);
    Some((payload, 4 + n_usize))
}

} // verus!
