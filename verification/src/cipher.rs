//! Counter-mode stream cipher states, one per transfer direction.
//!
//! A `DirectionalCipherState` is keyed by a 256-bit key and a 128-bit
//! initialization value and advances monotonically over the bytes it
//! processes. Encryption and decryption are the same operation: the keystream
//! is combined with the data by exclusive-or.

use vstd::prelude::*;

use aes::cipher::{KeyIvInit, StreamCipher, StreamCipherSeek};

verus! {

/// The keystream byte that AES-256 in counter mode (64-bit big-endian
/// counter in the low half of the 128-bit initialization value) produces at
/// position `pos` of the stream for the given key and initialization value.
/// The keystream depends on these three arguments alone.
pub uninterp spec fn aes256_ctr64be_keystream(key: Seq<u8>, iv: Seq<u8>, pos: int) -> u8;

/// `data`, combined byte for byte with the keystream that starts at stream
/// position `pos`.
pub open spec fn keystream_xor(key: Seq<u8>, iv: Seq<u8>, pos: int, data: Seq<u8>) -> Seq<u8> {
    Seq::new(data.len(), |i: int| data[i] ^ aes256_ctr64be_keystream(key, iv, pos + i))
}

/// Relies on `ctr::Ctr64BE::<aes::Aes256>` through `cipher::KeyIvInit::new`,
/// `cipher::StreamCipherSeek::seek` and `cipher::StreamCipher::apply_keystream`:
/// the cipher's keystream is a function of key, initialization value and
/// stream position alone, `seek` moves to the given position, and
/// `apply_keystream` XORs the keystream with the data in place. Positions up
/// to `u64::MAX` lie far below the end of the 64-bit-counter keystream, so
/// neither call panics.
#[verifier::external_body]
fn aes_ctr_apply(key: &Vec<u8>, iv: &Vec<u8>, pos: u64, data: Vec<u8>) -> (r: Vec<u8>)
    requires
        key@.len() == 32,
        iv@.len() == 16,
    ensures
        r@.len() == data@.len(),
        forall|i: int|
            0 <= i < data@.len() ==> r@[i] == (data@[i] ^ aes256_ctr64be_keystream(
                key@,
                iv@,
                pos + i,
            )),
{
    let mut data = data;
    let mut cipher = ctr::Ctr64BE::<aes::Aes256>::new(key.as_slice().into(), iv.as_slice().into());
    cipher.seek(pos);
    cipher.apply_keystream(&mut data);
    data
}

/// The mathematical content of a cipher state: its key, its initialization
/// value, and how far along its keystream it has advanced.
pub struct CipherModel {
    pub key: Seq<u8>,
    pub iv: Seq<u8>,
    pub pos: int,
}

/// A keystream generator for one transfer direction of one connection.
pub struct DirectionalCipherState {
    key: Vec<u8>,
    iv: Vec<u8>,
    pos: u64,
}

impl View for DirectionalCipherState {
    type V = CipherModel;

    closed spec fn view(&self) -> CipherModel {
        CipherModel { key: self.key@, iv: self.iv@, pos: self.pos as int }
    }
}

impl DirectionalCipherState {
    pub open spec fn wf(self) -> bool {
        &&& self@.key.len() == 32
        &&& self@.iv.len() == 16
        &&& 0 <= self@.pos <= u64::MAX
    }

    /// A fresh state at the start of its keystream.
    pub fn new(key: Vec<u8>, iv: Vec<u8>) -> (r: Self)
        requires
            key@.len() == 32,
            iv@.len() == 16,
        ensures
            r@.key == key@,
            r@.iv == iv@,
            r@.pos == 0,
            r.wf(),
    {
        DirectionalCipherState { key, iv, pos: 0 }
    }

    /// Combine `data` with the keystream from the current position on, and
    /// advance the state past it. Applying the same state (key, value and
    /// position) twice restores the original bytes.
    pub fn apply_keystream(&mut self, data: Vec<u8>) -> (r: Vec<u8>)
        requires
            old(self).wf(),
            old(self)@.pos + data@.len() <= u64::MAX,
        ensures
            final(self).wf(),
            final(self)@.key == old(self)@.key,
            final(self)@.iv == old(self)@.iv,
            final(self)@.pos == old(self)@.pos + data@.len(),
            r@ == keystream_xor(old(self)@.key, old(self)@.iv, old(self)@.pos, data@),
            r@.len() == data@.len(),
    {
        let ghost d = data@;
        let r = aes_ctr_apply(&self.key, &self.iv, self.pos, data);
        proof {
            assert(r@ =~= keystream_xor(self@.key, self@.iv, self@.pos, d));
        }
        self.pos = self.pos + r.len() as u64;
        r
    }
}

/// Keystream application is its own inverse: combining any byte sequence
/// with the same keystream (same key, initialization value and starting
/// position) twice yields the original sequence.
pub proof fn lemma_keystream_roundtrip(key: Seq<u8>, iv: Seq<u8>, pos: int, data: Seq<u8>)
    ensures
        keystream_xor(key, iv, pos, keystream_xor(key, iv, pos, data)) == data,
{
    let once = keystream_xor(key, iv, pos, data);
    let twice = keystream_xor(key, iv, pos, once);
    assert forall|i: int| 0 <= i < data.len() implies twice[i] == data[i] by {
        let k = aes256_ctr64be_keystream(key, iv, pos + i);
        let d = data[i];
        assert((d ^ k) ^ k == d) by (bit_vector);
    }
    assert(twice =~= data);
}

} // verus!
