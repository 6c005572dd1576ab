//! Binary cursor codec: fixed-layout (de)serialization of little-endian
//! integers and byte blocks.
//!
//! Reading goes through a forward-only [`Cursor`] over a byte buffer and
//! fails with [`HandshakeError::TruncatedInput`] when fewer bytes remain
//! than the value requires. Writing appends to a growable byte buffer.
//! Byte strings are written with a length prefix and zero padding to a
//! 4-byte boundary, and sequences of 64-bit integers with a constructor tag
//! and a count; both conventions are part of the wire contract and must be
//! produced bit-for-bit.

use vstd::prelude::*;

use vstd::bytes::{
    lemma_auto_spec_u32_to_from_le_bytes, lemma_auto_spec_u64_to_from_le_bytes,
    spec_u32_from_le_bytes, spec_u32_to_le_bytes, spec_u64_from_le_bytes, spec_u64_to_le_bytes,
    u32_from_le_bytes, u32_to_le_bytes, u64_from_le_bytes, u64_to_le_bytes,
};
use vstd::slice::slice_subrange;

use crate::err::HandshakeError;

verus! {

/// The tag that marks a serialized sequence of values on the wire.
pub const VECTOR_TAG: u32 = 0x1cb5c415;

/// The 64-bit signed value encoded little-endian by an 8-byte block.
pub open spec fn spec_i64_from_le_bytes(s: Seq<u8>) -> i64 {
    spec_u64_from_le_bytes(s) as i64
}

/// The 8-byte little-endian encoding of a 64-bit signed value.
pub open spec fn spec_i64_to_le_bytes(v: i64) -> Seq<u8> {
    spec_u64_to_le_bytes(v as u64)
}

/// Encoding then decoding a 64-bit signed value is the identity, and its
/// encoding is 8 bytes long.
pub proof fn lemma_i64_le_bytes_roundtrip(v: i64)
    ensures
        spec_i64_to_le_bytes(v).len() == 8,
        spec_i64_from_le_bytes(spec_i64_to_le_bytes(v)) == v,
{
    lemma_auto_spec_u64_to_from_le_bytes();
    assert(((v as u64) as i64) == v) by (bit_vector);
}

/// `n` zero bytes.
pub open spec fn zeros(n: nat) -> Seq<u8> {
    Seq::new(n, |i: int| 0u8)
}

/// How many zero bytes bring a block of `n` bytes up to the next 4-byte
/// boundary.
pub open spec fn pad4(n: int) -> int {
    (4 - (n % 4)) % 4
}

/// The length-prefixed, padded encoding of a byte string: a one-byte length
/// for up to 253 bytes, otherwise a `254` marker and a three-byte
/// little-endian length; then the bytes themselves; then zero padding up to
/// the next 4-byte boundary (the prefix counts toward the boundary).
pub open spec fn tl_bytes(b: Seq<u8>) -> Seq<u8> {
    if b.len() <= 253 {
        seq![b.len() as u8] + b + zeros(pad4(b.len() + 1 as int) as nat)
    } else {
        seq![
            254u8,
            (b.len() % 256) as u8,
            ((b.len() / 256) % 256) as u8,
            ((b.len() / 65536) % 256) as u8,
        ] + b + zeros(pad4(b.len() as int) as nat)
    }
}

/// A byte string's encoding always ends on a 4-byte boundary, and adds at
/// most 7 bytes to the string itself.
pub proof fn lemma_tl_bytes_len(b: Seq<u8>)
    ensures
        tl_bytes(b).len() % 4 == 0,
        b.len() + 1 <= tl_bytes(b).len() <= b.len() + 7,
{
    if b.len() <= 253 {
        assert((1 + b.len() + pad4(b.len() + 1 as int)) % 4 == 0) by (nonlinear_arith);
    } else {
        assert((4 + b.len() + pad4(b.len() as int)) % 4 == 0) by (nonlinear_arith);
    }
}

/// The concatenated 8-byte encodings of a sequence of 64-bit signed values.
pub open spec fn i64_seq_bytes(v: Seq<i64>) -> Seq<u8>
    decreases v.len(),
{
    if v.len() == 0 {
        Seq::empty()
    } else {
        spec_i64_to_le_bytes(v[0]) + i64_seq_bytes(v.subrange(1, v.len() as int))
    }
}

/// Extending the encoded prefix by one value appends that value's encoding.
pub proof fn lemma_i64_seq_bytes_step(v: Seq<i64>, i: int)
    requires
        0 <= i < v.len(),
    ensures
        i64_seq_bytes(v.take(i + 1)) == i64_seq_bytes(v.take(i)) + spec_i64_to_le_bytes(v[i]),
    decreases i,
{
    lemma_auto_spec_u64_to_from_le_bytes();
    if i == 0 {
        assert(v.take(1).len() == 1);
        assert(v.take(0).len() == 0);
        assert(i64_seq_bytes(v.take(0)) == Seq::<u8>::empty());
        let rest = v.take(1).subrange(1, 1);
        assert(rest.len() == 0);
        assert(i64_seq_bytes(rest) == Seq::<u8>::empty());
        assert(i64_seq_bytes(v.take(1)) == spec_i64_to_le_bytes(v.take(1)[0]) + i64_seq_bytes(
            rest,
        ));
        assert(v.take(1)[0] == v[0]);
        assert(spec_i64_to_le_bytes(v[0]) + Seq::<u8>::empty() =~= spec_i64_to_le_bytes(v[0]));
        assert(Seq::<u8>::empty() + spec_i64_to_le_bytes(v[0]) =~= spec_i64_to_le_bytes(v[0]));
    } else {
        let tail = v.subrange(1, v.len() as int);
        lemma_i64_seq_bytes_step(tail, i - 1);
        assert(v.take(i + 1).subrange(1, i + 1) =~= tail.take(i));
        assert(v.take(i).subrange(1, i) =~= tail.take(i - 1));
        assert(v.take(i + 1)[0] == v[0]);
        assert(v.take(i)[0] == v[0]);
        assert(tail[i - 1] == v[i]);
        assert(i64_seq_bytes(v.take(i + 1)) == spec_i64_to_le_bytes(v[0]) + i64_seq_bytes(
            tail.take(i),
        ));
        assert(i64_seq_bytes(v.take(i)) == spec_i64_to_le_bytes(v[0]) + i64_seq_bytes(
            tail.take(i - 1),
        ));
        assert(i64_seq_bytes(v.take(i + 1)) =~= i64_seq_bytes(v.take(i)) + spec_i64_to_le_bytes(
            v[i],
        ));
    }
}

/// A sequence's encoding is 8 bytes per value.
pub proof fn lemma_i64_seq_bytes_len(v: Seq<i64>)
    ensures
        i64_seq_bytes(v).len() == 8 * v.len(),
    decreases v.len(),
{
    lemma_auto_spec_u64_to_from_le_bytes();
    if v.len() > 0 {
        lemma_i64_seq_bytes_len(v.subrange(1, v.len() as int));
    }
}

/// The tagged, counted encoding of a sequence of 64-bit signed values: the
/// sequence tag, the count as a 32-bit little-endian integer, then each
/// value's 8-byte encoding in order.
pub open spec fn tl_i64_vector(v: Seq<i64>) -> Seq<u8> {
    spec_u32_to_le_bytes(VECTOR_TAG) + spec_u32_to_le_bytes(v.len() as u32) + i64_seq_bytes(v)
}

/// A forward-only read cursor over a byte buffer.
pub struct Cursor {
    data: Vec<u8>,
    pos: usize,
}

impl Cursor {
    /// The whole underlying buffer.
    pub closed spec fn data_spec(self) -> Seq<u8> {
        self.data@
    }

    /// How far the cursor has advanced.
    pub closed spec fn pos_spec(self) -> int {
        self.pos as int
    }

    pub open spec fn wf(self) -> bool {
        0 <= self.pos_spec() <= self.data_spec().len()
    }

    /// The bytes not yet consumed.
    pub open spec fn remaining_spec(self) -> Seq<u8> {
        self.data_spec().subrange(self.pos_spec(), self.data_spec().len() as int)
    }

    /// A cursor at the start of `data`.
    pub fn from_vec(data: Vec<u8>) -> (r: Self)
        ensures
            r.data_spec() == data@,
            r.pos_spec() == 0,
            r.wf(),
    {
        Cursor { data, pos: 0 }
    }

    /// How many bytes are left to read.
    pub fn remaining(&self) -> (r: usize)
        requires
            self.wf(),
        ensures
            r == self.remaining_spec().len(),
    {
        self.data.len() - self.pos
    }

    /// Read a 32-bit unsigned little-endian integer.
    pub fn read_u32(&mut self) -> (r: Result<u32, HandshakeError>)
        requires
            old(self).wf(),
        ensures
            final(self).wf(),
            final(self).data_spec() == old(self).data_spec(),
            r is Ok <==> old(self).remaining_spec().len() >= 4,
            r is Ok ==> final(self).pos_spec() == old(self).pos_spec() + 4 && r->Ok_0
                == spec_u32_from_le_bytes(old(self).remaining_spec().take(4)),
            r is Err ==> final(self).pos_spec() == old(self).pos_spec() && r->Err_0
                == HandshakeError::TruncatedInput,
    {
        if self.data.len() - self.pos >= 4 {
            let s = slice_subrange(self.data.as_slice(), self.pos, self.pos + 4);
            let v = u32_from_le_bytes(s);
            proof {
                assert(s@ =~= old(self).remaining_spec().take(4));
            }
            self.pos = self.pos + 4;
            Ok(v)
        } else {
            Err(HandshakeError::TruncatedInput)
        }
    }

    /// Read a 64-bit signed little-endian integer.
    pub fn read_i64(&mut self) -> (r: Result<i64, HandshakeError>)
        requires
            old(self).wf(),
        ensures
            final(self).wf(),
            final(self).data_spec() == old(self).data_spec(),
            r is Ok <==> old(self).remaining_spec().len() >= 8,
            r is Ok ==> final(self).pos_spec() == old(self).pos_spec() + 8 && r->Ok_0
                == spec_i64_from_le_bytes(old(self).remaining_spec().take(8)),
            r is Err ==> final(self).pos_spec() == old(self).pos_spec() && r->Err_0
                == HandshakeError::TruncatedInput,
    {
        if self.data.len() - self.pos >= 8 {
            let s = slice_subrange(self.data.as_slice(), self.pos, self.pos + 8);
            let v = u64_from_le_bytes(s);
            proof {
                assert(s@ =~= old(self).remaining_spec().take(8));
            }
            self.pos = self.pos + 8;
            Ok(v as i64)
        } else {
            Err(HandshakeError::TruncatedInput)
        }
    }

    /// Read a 16-byte block verbatim.
    pub fn read_bytes16(&mut self) -> (r: Result<[u8; 16], HandshakeError>)
        requires
            old(self).wf(),
        ensures
            final(self).wf(),
            final(self).data_spec() == old(self).data_spec(),
            r is Ok <==> old(self).remaining_spec().len() >= 16,
            r is Ok ==> final(self).pos_spec() == old(self).pos_spec() + 16 && r->Ok_0@ == old(
                self,
            ).remaining_spec().take(16),
            r is Err ==> final(self).pos_spec() == old(self).pos_spec() && r->Err_0
                == HandshakeError::TruncatedInput,
    {
        if self.data.len() - self.pos >= 16 {
            let mut out: [u8; 16] = [0u8; 16];
            let mut i: usize = 0;
            while i < 16
                invariant
                    self == old(self),
                    self.wf(),
                    self.data_spec().len() <= usize::MAX,
                    self.data_spec().len() - self.pos_spec() >= 16,
                    0 <= i <= 16,
                    out@.len() == 16,
                    forall|j: int| 0 <= j < i ==> out@[j] == self.data_spec()[self.pos_spec() + j],
                decreases 16 - i,
            {
                out[i] = self.data[self.pos + i];
                i = i + 1;
            }
            proof {
                assert(out@ =~= old(self).remaining_spec().take(16));
            }
            self.pos = self.pos + 16;
            Ok(out)
        } else {
            Err(HandshakeError::TruncatedInput)
        }
    }
}

/// Append the bytes of `b` to `buf` verbatim.
pub fn append_bytes(buf: &mut Vec<u8>, b: &Vec<u8>)
    ensures
        final(buf)@ == old(buf)@ + b@,
{
    let mut i: usize = 0;
    while i < b.len()
        invariant
            0 <= i <= b@.len(),
            buf@ == old(buf)@ + b@.take(i as int),
        decreases b@.len() - i,
    {
        buf.push(b[i]);
        proof {
            assert(old(buf)@ + b@.take(i as int) + seq![b@[i as int]] =~= old(buf)@ + b@.take(
                i + 1,
            ));
        }
        i = i + 1;
    }
    proof {
        assert(b@.take(b@.len() as int) =~= b@);
    }
}

/// Append the 4-byte little-endian encoding of `v`.
pub fn write_u32(buf: &mut Vec<u8>, v: u32)
    ensures
        final(buf)@ == old(buf)@ + spec_u32_to_le_bytes(v),
{
    let mut b = u32_to_le_bytes(v);
    buf.append(&mut b);
}

/// Append the 8-byte little-endian encoding of `v`.
pub fn write_i64(buf: &mut Vec<u8>, v: i64)
    ensures
        final(buf)@ == old(buf)@ + spec_i64_to_le_bytes(v),
{
    let mut b = u64_to_le_bytes(v as u64);
    buf.append(&mut b);
}

/// Append a 16-byte block verbatim.
pub fn write_bytes16(buf: &mut Vec<u8>, b: &[u8; 16])
    ensures
        final(buf)@ == old(buf)@ + b@,
{
    let mut i: usize = 0;
    while i < 16
        invariant
            0 <= i <= 16,
            b@.len() == 16,
            buf@ == old(buf)@ + b@.take(i as int),
        decreases 16 - i,
    {
        buf.push(b[i]);
        proof {
            assert(old(buf)@ + b@.take(i as int) + seq![b@[i as int]] =~= old(buf)@ + b@.take(
                i + 1,
            ));
        }
        i = i + 1;
    }
    proof {
        assert(b@.take(16) =~= b@);
    }
}

/// Append the length-prefixed, padded encoding of the byte string `b`.
pub fn write_tl_bytes(buf: &mut Vec<u8>, b: &Vec<u8>)
    requires
        b@.len() <= 0xffffff,
        old(buf)@.len() + b@.len() + 7 <= usize::MAX,
    ensures
        final(buf)@ == old(buf)@ + tl_bytes(b@),
{
    let n = b.len();
    let pad: usize;
    if n <= 253 {
        buf.push(n as u8);
        pad = (4 - ((n + 1) % 4)) % 4;
    } else {
        buf.push(254u8);
        buf.push((n % 256) as u8);
        buf.push(((n / 256) % 256) as u8);
        buf.push(((n / 65536) % 256) as u8);
        pad = (4 - (n % 4)) % 4;
    }
    append_bytes(buf, b);
    let mut k: usize = 0;
    let ghost before_pad = buf@;
    while k < pad
        invariant
            0 <= k <= pad,
            buf@ == before_pad + zeros(k as nat),
        decreases pad - k,
    {
        buf.push(0u8);
        proof {
            assert(before_pad + zeros(k as nat) + seq![0u8] =~= before_pad + zeros((k + 1) as nat));
        }
        k = k + 1;
    }
    proof {
        assert(buf@ =~= old(buf)@ + tl_bytes(b@));
    }
}

/// Append the tagged, counted encoding of the 64-bit integer sequence `v`.
pub fn write_i64_vector(buf: &mut Vec<u8>, v: &Vec<i64>)
    requires
        v@.len() <= 0x7fffffff,
        old(buf)@.len() + 8 + 8 * v@.len() <= usize::MAX,
    ensures
        final(buf)@ == old(buf)@ + tl_i64_vector(v@),
{
    write_u32(buf, VECTOR_TAG);
    write_u32(buf, v.len() as u32);
    let ghost head = old(buf)@ + spec_u32_to_le_bytes(VECTOR_TAG) + spec_u32_to_le_bytes(
        v@.len() as u32,
    );
    let mut i: usize = 0;
    while i < v.len()
        invariant
            0 <= i <= v@.len(),
            buf@ == head + i64_seq_bytes(v@.take(i as int)),
        decreases v@.len() - i,
    {
        write_i64(buf, v[i]);
        proof {
            lemma_i64_seq_bytes_step(v@, i as int);
            assert(head + i64_seq_bytes(v@.take(i as int)) + spec_i64_to_le_bytes(v@[i as int])
                =~= head + i64_seq_bytes(v@.take(i + 1)));
        }
        i = i + 1;
    }
    proof {
        assert(v@.take(v@.len() as int) =~= v@);
        assert(buf@ =~= old(buf)@ + tl_i64_vector(v@));
    }
}

} // verus!
