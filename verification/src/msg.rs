//! The two handshake messages: the client's public-key request and the
//! server's response, each a fixed-field binary record over the cursor
//! codec.

use vstd::prelude::*;

use vstd::bytes::{
    lemma_auto_spec_u32_to_from_le_bytes, lemma_auto_spec_u64_to_from_le_bytes,
    spec_u32_from_le_bytes, spec_u32_to_le_bytes,
};

use crate::codec::{
    lemma_i64_le_bytes_roundtrip, lemma_tl_bytes_len, spec_i64_from_le_bytes,
    spec_i64_to_le_bytes, tl_bytes, tl_i64_vector, write_bytes16, write_i64, write_i64_vector,
    write_tl_bytes, write_u32, Cursor,
};
use crate::err::HandshakeError;

verus! {

broadcast use vstd::array::group_array_axioms;

/// Constructor tag of the server's public-key response.
pub const RES_PQ_MAGIC: u32 = 0x05162463;

/// The server-chosen nonce, constant for the whole server process.
pub open spec fn server_nonce_bytes() -> Seq<u8> {
    seq![
        0x37u8,
        0x13u8,
        0u8,
        0u8,
        0u8,
        0u8,
        0u8,
        0u8,
        0u8,
        0u8,
        0u8,
        0u8,
        0u8,
        0u8,
        0u8,
        0u8,
    ]
}

/// The server nonce as a 16-byte block.
pub fn server_nonce() -> (r: [u8; 16])
    ensures
        r@ == server_nonce_bytes(),
{
    let mut r: [u8; 16] = [0u8; 16];
    r[0] = 0x37u8;
    r[1] = 0x13u8;
    proof {
        assert(r@ =~= server_nonce_bytes());
    }
    r
}

/// The fingerprint of the one public key this server offers.
pub open spec fn server_key_fingerprint() -> i64 {
    0xd09d1d85de64fd85u64 as i64
}

/// Relies on `std::time::SystemTime::now`, read against
/// `std::time::SystemTime::UNIX_EPOCH` and truncated to 64 bits: the wall
/// clock's current reading in nanoseconds. Zero stands in for a clock before
/// the epoch; nothing is assumed of the value.
#[verifier::external_body]
fn unix_time_nanos() -> (r: i64) {
    std::time::SystemTime::now().duration_since(std::time::SystemTime::UNIX_EPOCH).map(
        |d| d.as_nanos() as i64,
    ).unwrap_or(0)
}

/// The client's public-key request: five fields in fixed order.
#[derive(Debug)]
pub struct ReqPqMulti {
    pub auth_key_id: i64,
    pub message_id: i64,
    pub message_length: u32,
    pub magic: u32,
    pub nonce: [u8; 16],
}

/// The fixed-order field layout of a request over its wire bytes.
pub open spec fn req_parses_to(b: Seq<u8>, r: ReqPqMulti) -> bool {
    &&& r.auth_key_id == spec_i64_from_le_bytes(b.subrange(0, 8))
    &&& r.message_id == spec_i64_from_le_bytes(b.subrange(8, 16))
    &&& r.message_length == spec_u32_from_le_bytes(b.subrange(16, 20))
    &&& r.magic == spec_u32_from_le_bytes(b.subrange(20, 24))
    &&& r.nonce@ == b.subrange(24, 40)
}

/// The serialized form of a request: each field little-endian, in order.
pub open spec fn req_bytes(r: ReqPqMulti) -> Seq<u8> {
    spec_i64_to_le_bytes(r.auth_key_id) + spec_i64_to_le_bytes(r.message_id)
        + spec_u32_to_le_bytes(r.message_length) + spec_u32_to_le_bytes(r.magic) + r.nonce@
}

impl ReqPqMulti {
    /// A byte block holds a well-formed request when the five fixed fields
    /// fit and no bytes trail beyond the declared message length (the
    /// declared length counts the bytes after the length field itself).
    pub open spec fn wire_ok(b: Seq<u8>) -> bool {
        &&& b.len() >= 40
        &&& b.len() <= 20 + spec_u32_from_le_bytes(b.subrange(16, 20))
    }

    /// Decode the five fields in fixed order from the cursor. Fails with
    /// `MalformedRequest` when a field fails to decode or when trailing
    /// bytes remain beyond the declared message length.
    pub fn parse(cur: &mut Cursor) -> (r: Result<ReqPqMulti, HandshakeError>)
        requires
            old(cur).wf(),
        ensures
            final(cur).wf(),
            final(cur).data_spec() == old(cur).data_spec(),
            r is Ok <==> Self::wire_ok(old(cur).remaining_spec()),
            r is Ok ==> req_parses_to(old(cur).remaining_spec(), r->Ok_0) && final(cur).pos_spec()
                == old(cur).pos_spec() + 40,
            r is Err ==> r->Err_0 == HandshakeError::MalformedRequest,
    {
        let ghost b = old(cur).remaining_spec();
        let ghost d = old(cur).data_spec();
        let ghost p = old(cur).pos_spec();
        let total = cur.remaining();
        let auth_key_id = match cur.read_i64() {
            Ok(v) => v,
            Err(_) => {
                return Err(HandshakeError::MalformedRequest);
            },
        };
        proof {
            assert(d.subrange(p, d.len() as int).take(8) =~= b.subrange(0, 8));
        }
        let message_id = match cur.read_i64() {
            Ok(v) => v,
            Err(_) => {
                return Err(HandshakeError::MalformedRequest);
            },
        };
        proof {
            assert(d.subrange(p + 8, d.len() as int).take(8) =~= b.subrange(8, 16));
        }
        let message_length = match cur.read_u32() {
            Ok(v) => v,
            Err(_) => {
                return Err(HandshakeError::MalformedRequest);
            },
        };
        proof {
            assert(d.subrange(p + 16, d.len() as int).take(4) =~= b.subrange(16, 20));
        }
        let magic = match cur.read_u32() {
            Ok(v) => v,
            Err(_) => {
                return Err(HandshakeError::MalformedRequest);
            },
        };
        proof {
            assert(d.subrange(p + 20, d.len() as int).take(4) =~= b.subrange(20, 24));
        }
        let nonce = match cur.read_bytes16() {
            Ok(v) => v,
            Err(_) => {
                return Err(HandshakeError::MalformedRequest);
            },
        };
        proof {
            assert(d.subrange(p + 24, d.len() as int).take(16) =~= b.subrange(24, 40));
        }
        if (total as u64) > 20u64 + (message_length as u64) {
            return Err(HandshakeError::MalformedRequest);
        }
        Ok(ReqPqMulti { auth_key_id, message_id, message_length, magic, nonce })
    }

    /// Encode the five fields in fixed order.
    pub fn ser(&self) -> (out: Vec<u8>)
        ensures
            out@ == req_bytes(*self),
    {
        let mut out: Vec<u8> = Vec::new();
        write_i64(&mut out, self.auth_key_id);
        write_i64(&mut out, self.message_id);
        write_u32(&mut out, self.message_length);
        write_u32(&mut out, self.magic);
        write_bytes16(&mut out, &self.nonce);
        proof {
            assert(out@ =~= req_bytes(*self));
        }
        out
    }
}

/// Serializing a request and parsing the bytes back yields the original
/// five fields, for every request whose declared message length covers the
/// 20 bytes that follow the length field. (A request that declares a
/// shorter length - zero, say - is rejected as carrying trailing bytes.)
pub proof fn lemma_req_pq_roundtrip(r: ReqPqMulti)
    requires
        r.message_length >= 20,
    ensures
        ReqPqMulti::wire_ok(req_bytes(r)),
        req_parses_to(req_bytes(r), r),
{
    lemma_auto_spec_u32_to_from_le_bytes();
    lemma_i64_le_bytes_roundtrip(r.auth_key_id);
    lemma_i64_le_bytes_roundtrip(r.message_id);
    let b = req_bytes(r);
    assert(b.subrange(0, 8) =~= spec_i64_to_le_bytes(r.auth_key_id));
    assert(b.subrange(8, 16) =~= spec_i64_to_le_bytes(r.message_id));
    assert(b.subrange(16, 20) =~= spec_u32_to_le_bytes(r.message_length));
    assert(b.subrange(20, 24) =~= spec_u32_to_le_bytes(r.magic));
    assert(b.subrange(24, 40) =~= r.nonce@);
}

/// The server's public-key response.
#[derive(Debug)]
pub struct ResPq {
    pub auth_key_id: i64,
    pub message_id: i64,
    pub message_length: u32,
    pub magic: u32,
    pub nonce: [u8; 16],
    pub server_nonce: [u8; 16],
    pub pq: Vec<u8>,
    pub server_public_key_fingerprints: Vec<i64>,
}

/// The serialized form of a response: the fixed fields little-endian in
/// order, then the two nonces verbatim, then the length-prefixed `pq`
/// string, then the tagged fingerprint sequence.
pub open spec fn res_pq_bytes(r: ResPq) -> Seq<u8> {
    spec_i64_to_le_bytes(r.auth_key_id) + spec_i64_to_le_bytes(r.message_id)
        + spec_u32_to_le_bytes(r.message_length) + spec_u32_to_le_bytes(r.magic) + r.nonce@
        + r.server_nonce@ + tl_bytes(r.pq@) + tl_i64_vector(r.server_public_key_fingerprints@)
}

/// The wire bytes of the response that echoes `nonce` and carries `pq`
/// under message identifier `message_id`, with every server-fixed field
/// filled in.
pub open spec fn response_bytes(nonce: Seq<u8>, pq: Seq<u8>, message_id: i64) -> Seq<u8> {
    spec_i64_to_le_bytes(0) + spec_i64_to_le_bytes(message_id) + spec_u32_to_le_bytes(0)
        + spec_u32_to_le_bytes(RES_PQ_MAGIC) + nonce + server_nonce_bytes() + tl_bytes(pq)
        + tl_i64_vector(seq![server_key_fingerprint()])
}

/// The wire carries the message identifier at bytes `[8..16)` of the
/// response, so a response built from a later (larger) clock reading
/// carries a strictly larger message identifier than one built earlier:
/// identifiers reflect generation order whenever the clock moved between
/// them.
pub proof fn lemma_response_message_id_order(nonce: Seq<u8>, pq: Seq<u8>, t1: i64, t2: i64)
    requires
        t1 < t2,
    ensures
        spec_i64_from_le_bytes(response_bytes(nonce, pq, t1).subrange(8, 16))
            < spec_i64_from_le_bytes(response_bytes(nonce, pq, t2).subrange(8, 16)),
{
    lemma_auto_spec_u64_to_from_le_bytes();
    lemma_i64_le_bytes_roundtrip(t1);
    lemma_i64_le_bytes_roundtrip(t2);
    assert(response_bytes(nonce, pq, t1).subrange(8, 16) =~= spec_i64_to_le_bytes(t1));
    assert(response_bytes(nonce, pq, t2).subrange(8, 16) =~= spec_i64_to_le_bytes(t2));
}

/// A response's encoding ends on a 4-byte boundary and is bounded by its
/// variable parts.
pub proof fn lemma_res_pq_bytes_len(r: ResPq)
    ensures
        res_pq_bytes(r).len() % 4 == 0,
        res_pq_bytes(r).len() <= 71 + r.pq@.len() + 8 * r.server_public_key_fingerprints@.len(),
        res_pq_bytes(r).len() >= 64,
{
    lemma_auto_spec_u32_to_from_le_bytes();
    lemma_auto_spec_u64_to_from_le_bytes();
    lemma_tl_bytes_len(r.pq@);
    crate::codec::lemma_i64_seq_bytes_len(r.server_public_key_fingerprints@);
}

impl ResPq {
    /// The pure constructor: every field of the response that a given
    /// request nonce, semiprime and message identifier determine.
    pub fn generate_at(nonce: [u8; 16], pq: Vec<u8>, message_id: i64) -> (r: ResPq)
        ensures
            r.auth_key_id == 0,
            r.message_id == message_id,
            r.message_length == 0,
            r.magic == RES_PQ_MAGIC,
            r.nonce == nonce,
            r.server_nonce@ == server_nonce_bytes(),
            r.pq == pq,
            r.server_public_key_fingerprints@ == seq![server_key_fingerprint()],
    {
        let fp: i64 = 0xd09d1d85de64fd85u64 as i64;
        let mut fingerprints: Vec<i64> = Vec::new();
        fingerprints.push(fp);
        proof {
            assert(fingerprints@ =~= seq![server_key_fingerprint()]);
        }
        ResPq {
            auth_key_id: 0,
            message_id,
            message_length: 0,
            magic: RES_PQ_MAGIC,
            nonce,
            server_nonce: server_nonce(),
            pq,
            server_public_key_fingerprints: fingerprints,
        }
    }

    /// Build the response to a request that carried `nonce`: echo the nonce,
    /// take a fresh message identifier from the wall clock, and fix every
    /// other field. The server nonce is the same for every response of this
    /// server process.
    pub fn generate(nonce: [u8; 16], pq: Vec<u8>) -> (r: ResPq)
        ensures
            r.auth_key_id == 0,
            r.message_length == 0,
            r.magic == RES_PQ_MAGIC,
            r.nonce == nonce,
            r.server_nonce@ == server_nonce_bytes(),
            r.pq == pq,
            r.server_public_key_fingerprints@ == seq![server_key_fingerprint()],
    {
        let message_id = unix_time_nanos();
        Self::generate_at(nonce, pq, message_id)
    }

    /// Encode the response; serialization of well-formed in-memory data
    /// cannot fail. The bounds keep the wire's three-byte string length and
    /// the buffer arithmetic inside their formats.
    pub fn ser(&self) -> (out: Vec<u8>)
        requires
            self.pq@.len() <= 0xffffff,
            self.server_public_key_fingerprints@.len() <= 0xffff,
        ensures
            out@ == res_pq_bytes(*self),
    {
        proof {
            lemma_auto_spec_u32_to_from_le_bytes();
            lemma_auto_spec_u64_to_from_le_bytes();
            lemma_tl_bytes_len(self.pq@);
        }
        let mut out: Vec<u8> = Vec::new();
        write_i64(&mut out, self.auth_key_id);
        write_i64(&mut out, self.message_id);
        write_u32(&mut out, self.message_length);
        write_u32(&mut out, self.magic);
        write_bytes16(&mut out, &self.nonce);
        write_bytes16(&mut out, &self.server_nonce);
        write_tl_bytes(&mut out, &self.pq);
        write_i64_vector(&mut out, &self.server_public_key_fingerprints);
        proof {
            assert(out@ =~= res_pq_bytes(*self));
        }
        out
    }
}

} // verus!
