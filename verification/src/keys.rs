//! Derivation of the two per-direction cipher states from the 64-byte
//! random header a client sends at connection start.
//!
//! The inbound direction (bytes the client sends) takes its key from header
//! bytes `[8..40)` and its initialization value from bytes `[40..56)`, both
//! in header order. The outbound direction (bytes the server sends) reads
//! the same offsets over the *reversed* header: reverse all 64 bytes, then
//! skip 8 and take 32 for the key, skip a further 8 and take 16 for the
//! value. An observer who does not know this forward/reverse rule cannot
//! derive one direction's state from the other.

use vstd::prelude::*;

use crate::cipher::DirectionalCipherState;

verus! {

/// Key of the inbound (client-to-server) direction: header bytes `[8..40)`.
pub open spec fn inbound_key(h: Seq<u8>) -> Seq<u8> {
    h.subrange(8, 40)
}

/// Initialization value of the inbound direction: header bytes `[40..56)`.
pub open spec fn inbound_iv(h: Seq<u8>) -> Seq<u8> {
    h.subrange(40, 56)
}

/// Key of the outbound (server-to-client) direction: bytes `[8..40)` of the
/// reversed header.
pub open spec fn outbound_key(h: Seq<u8>) -> Seq<u8> {
    h.reverse().subrange(8, 40)
}

/// Initialization value of the outbound direction: bytes `[40..56)` of the
/// reversed header.
pub open spec fn outbound_iv(h: Seq<u8>) -> Seq<u8> {
    h.reverse().subrange(40, 56)
}

/// Copy `h[lo..hi)` into a fresh vector.
fn copy_range(h: &Vec<u8>, lo: usize, hi: usize) -> (r: Vec<u8>)
    requires
        lo <= hi <= h@.len(),
    ensures
        r@ == h@.subrange(lo as int, hi as int),
{
    let mut r: Vec<u8> = Vec::new();
    let mut i: usize = lo;
    while i < hi
        invariant
            lo <= i <= hi <= h@.len(),
            r@ == h@.subrange(lo as int, i as int),
        decreases hi - i,
    {
        r.push(h[i]);
        proof {
            assert(r@ =~= h@.subrange(lo as int, i + 1 as int));
        }
        i = i + 1;
    }
    r
}

/// Copy `h[lo..hi)` of the reversed `h` into a fresh vector.
fn copy_reversed_range(h: &Vec<u8>, lo: usize, hi: usize) -> (r: Vec<u8>)
    requires
        lo <= hi <= h@.len(),
    ensures
        r@ == h@.reverse().subrange(lo as int, hi as int),
{
    let n = h.len();
    let mut r: Vec<u8> = Vec::new();
    let mut i: usize = lo;
    while i < hi
        invariant
            lo <= i <= hi <= n == h@.len(),
            r@ == h@.reverse().subrange(lo as int, i as int),
        decreases hi - i,
    {
        r.push(h[n - 1 - i]);
        proof {
            assert(r@ =~= h@.reverse().subrange(lo as int, i + 1 as int));
        }
        i = i + 1;
    }
    r
}

/// Derive both cipher states from the 64-byte header: first the inbound
/// state (header order), then the outbound state (reversed header order).
/// Both start at keystream position 0.
pub fn derive_cipher_states(header: &Vec<u8>) -> (r: (
    DirectionalCipherState,
    DirectionalCipherState,
))
    requires
        header@.len() == 64,
    ensures
        r.0@.key == inbound_key(header@),
        r.0@.iv == inbound_iv(header@),
        r.0@.pos == 0,
        r.0.wf(),
        r.1@.key == outbound_key(header@),
        r.1@.iv == outbound_iv(header@),
        r.1@.pos == 0,
        r.1.wf(),
{
    let in_key = copy_range(header, 8, 40);
    let in_iv = copy_range(header, 40, 56);
    let out_key = copy_reversed_range(header, 8, 40);
    let out_iv = copy_reversed_range(header, 40, 56);
    (DirectionalCipherState::new(in_key, in_iv), DirectionalCipherState::new(out_key, out_iv))
}

/// The two directions' keys agree exactly when the header reads the same
/// forwards and backwards over bytes `[8..56)`: position `p` against
/// position `63 - p`. In particular, any header with one asymmetric pair of
/// bytes in `[8..40)` yields two distinct keys.
pub proof fn lemma_key_asymmetry_exact(h: Seq<u8>)
    requires
        h.len() == 64,
    ensures
        (inbound_key(h) == outbound_key(h)) <==> (forall|p: int|
            8 <= p < 40 ==> #[trigger] h[p] == h[63 - p]),
{
    let fwd = inbound_key(h);
    let rev = outbound_key(h);
    assert(forall|i: int| 0 <= i < 32 ==> fwd[i] == h[8 + i]);
    assert(forall|i: int| 0 <= i < 32 ==> rev[i] == h[63 - (8 + i)]);
    if forall|p: int| 8 <= p < 40 ==> #[trigger] h[p] == h[63 - p] {
        assert forall|i: int| 0 <= i < 32 implies fwd[i] == rev[i] by {
            assert(h[8 + i] == h[63 - (8 + i)]);
        }
        assert(fwd =~= rev);
    }
    if fwd == rev {
        assert forall|p: int| 8 <= p < 40 implies #[trigger] h[p] == h[63 - p] by {
            assert(fwd[p - 8] == rev[p - 8]);
        }
    }
}

/// The two directions' initialization values agree exactly when the header
/// is mirror-symmetric over bytes `[8..24)` against `[40..56)`.
pub proof fn lemma_iv_asymmetry_exact(h: Seq<u8>)
    requires
        h.len() == 64,
    ensures
        (inbound_iv(h) == outbound_iv(h)) <==> (forall|p: int|
            40 <= p < 56 ==> #[trigger] h[p] == h[63 - p]),
{
    let fwd = inbound_iv(h);
    let rev = outbound_iv(h);
    assert(forall|i: int| 0 <= i < 16 ==> fwd[i] == h[40 + i]);
    assert(forall|i: int| 0 <= i < 16 ==> rev[i] == h[63 - (40 + i)]);
    if forall|p: int| 40 <= p < 56 ==> #[trigger] h[p] == h[63 - p] {
        assert forall|i: int| 0 <= i < 16 implies fwd[i] == rev[i] by {
            assert(h[40 + i] == h[63 - (40 + i)]);
        }
        assert(fwd =~= rev);
    }
    if fwd == rev {
        assert forall|p: int| 40 <= p < 56 implies #[trigger] h[p] == h[63 - p] by {
            assert(fwd[p - 40] == rev[p - 40]);
        }
    }
}

/// Derivation asymmetry: a header with any asymmetric byte pair over
/// `[8..40)` gives the two directions different keys, and one with any
/// asymmetric pair over `[40..56)` gives them different initialization
/// values. (A mirror-symmetric header - the all-zero header among them -
/// gives equal pairs; asymmetry holds for every other header.)
pub proof fn lemma_derivation_asymmetry(h: Seq<u8>)
    requires
        h.len() == 64,
        exists|p: int| 8 <= p < 56 && #[trigger] h[p] != h[63 - p],
    ensures
        inbound_key(h) != outbound_key(h) || inbound_iv(h) != outbound_iv(h),
{
    let p = choose|p: int| 8 <= p < 56 && #[trigger] h[p] != h[63 - p];
    if p < 40 {
        lemma_key_asymmetry_exact(h);
    } else {
        lemma_iv_asymmetry_exact(h);
    }
}

} // verus!
