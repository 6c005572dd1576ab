//! Length-framing layer beneath the encryption: a payload's length travels
//! as a single leading byte counting 4-byte words.
//!
//! Unpacking reads the length-unit byte and then `unit * 4` payload bytes.
//! Packing a response prepends the framing header to the serialized payload
//! and then strips the leading length-indicator byte, which the peer
//! re-derives from context rather than receiving verbatim: a payload of
//! fewer than 127 words travels as itself, a longer one behind the three
//! little-endian bytes of its word count.

use vstd::prelude::*;

use crate::codec::append_bytes;

verus! {

/// How many payload bytes a length-unit byte announces.
pub open spec fn framed_len(unit: u8) -> int {
    4 * unit
}

/// The actual byte count a length-unit byte stands for.
pub fn payload_len(unit: u8) -> (r: usize)
    ensures
        r == framed_len(unit),
{
    4 * (unit as usize)
}

/// What remains of a payload's frame once the leading length-indicator byte
/// is stripped.
pub open spec fn frame_tail(data: Seq<u8>) -> Seq<u8>
    recommends
        data.len() % 4 == 0,
{
    let words = data.len() / 4;
    if words < 127 {
        data
    } else {
        seq![(words % 256) as u8, ((words / 256) % 256) as u8, ((words / 65536) % 256) as u8]
            + data
    }
}

/// Frame `data` for sending, without the leading length-indicator byte.
pub fn pack_frame_tail(data: Vec<u8>) -> (r: Vec<u8>)
    requires
        data@.len() % 4 == 0,
        data@.len() < 0x4000000,
    ensures
        r@ == frame_tail(data@),
{
    let words = data.len() / 4;
    if words < 127 {
        data
    } else {
        let mut r: Vec<u8> = Vec::new();
        r.push((words % 256) as u8);
        r.push(((words / 256) % 256) as u8);
        r.push(((words / 65536) % 256) as u8);
        append_bytes(&mut r, &data);
        proof {
            assert(r@ =~= frame_tail(data@));
        }
        r
    }
}

} // verus!
