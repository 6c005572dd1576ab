//! The connection handshake driver: the decisions of one connection's
//! handshake, from the client's random header to the encrypted response
//! bytes.
//!
//! The driver itself never touches the transport. The caller reads the
//! header's 56 cleartext bytes, the 8 encrypted header bytes (consumed
//! unread), and the length-unit byte, hands them to [`Handshake::start`],
//! reads exactly the announced number of payload bytes, and passes them on;
//! what comes back from [`Handshake::respond`] is written out verbatim. Any
//! failure abandons the connection: there is no retry of any step.

use vstd::prelude::*;

use crate::cipher::{aes256_ctr64be_keystream, keystream_xor, DirectionalCipherState};
use crate::codec::{zeros, Cursor};
use crate::err::HandshakeError;
use crate::framing::{frame_tail, pack_frame_tail, payload_len};
use crate::keys::{derive_cipher_states, inbound_iv, inbound_key, outbound_iv, outbound_key};
use crate::msg::{
    lemma_res_pq_bytes_len, req_parses_to, res_pq_bytes, response_bytes, ReqPqMulti, ResPq,
};

verus! {

/// The 64-byte block that key derivation works on: the 56 cleartext header
/// bytes padded with 8 zero bytes. The 8 header bytes that arrive encrypted
/// play no part in derivation: both derivation rules skip 8 bytes from
/// their end of the header before slicing.
pub open spec fn padded_header(prefix: Seq<u8>) -> Seq<u8> {
    prefix + zeros(8)
}

/// The fixed semiprime this server hands out for the client to factor.
pub open spec fn default_pq_bytes() -> Seq<u8> {
    seq![0x81u8, 0xf9u8, 0x08u8, 0x1au8, 0x94u8, 0x48u8, 0xedu8, 0x17u8]
}

/// The fixed semiprime as a byte string (a 64-bit composite, big-endian).
pub fn default_pq() -> (r: Vec<u8>)
    ensures
        r@ == default_pq_bytes(),
{
    let mut r: Vec<u8> = Vec::new();
    r.push(0x81u8);
    r.push(0xf9u8);
    r.push(0x08u8);
    r.push(0x1au8);
    r.push(0x94u8);
    r.push(0x48u8);
    r.push(0xedu8);
    r.push(0x17u8);
    proof {
        assert(r@ =~= default_pq_bytes());
    }
    r
}

/// One connection's cipher states, inbound (client to server) and outbound
/// (server to client).
pub struct Handshake {
    pub inbound: DirectionalCipherState,
    pub outbound: DirectionalCipherState,
}

impl Handshake {
    pub open spec fn wf(self) -> bool {
        self.inbound.wf() && self.outbound.wf()
    }

    /// Accept the header: derive both cipher states from the padded header,
    /// advance the inbound keystream over the 64 header bytes (the header
    /// itself is never decrypted; the advance keeps the keystream in
    /// lock-step with the peer), then decrypt the length-unit byte. Returns
    /// the driver state and exactly how many payload bytes to read next:
    /// four per unit of the decrypted length byte.
    pub fn start(prefix: &Vec<u8>, len_byte: u8) -> (r: (Handshake, usize))
        requires
            prefix@.len() == 56,
        ensures
            ({
                let h = padded_header(prefix@);
                &&& r.0.wf()
                &&& r.0.inbound@.key == inbound_key(h)
                &&& r.0.inbound@.iv == inbound_iv(h)
                &&& r.0.inbound@.pos == 65
                &&& r.0.outbound@.key == outbound_key(h)
                &&& r.0.outbound@.iv == outbound_iv(h)
                &&& r.0.outbound@.pos == 0
                &&& r.1 == 4 * (len_byte ^ aes256_ctr64be_keystream(
                    inbound_key(h),
                    inbound_iv(h),
                    64,
                ))
            }),
    {
        let mut header: Vec<u8> = Vec::new();
        crate::codec::append_bytes(&mut header, prefix);
        let mut k: usize = 0;
        while k < 8
            invariant
                0 <= k <= 8,
                header@ == prefix@ + zeros(k as nat),
            decreases 8 - k,
        {
            header.push(0u8);
            proof {
                assert(prefix@ + zeros(k as nat) + seq![0u8] =~= prefix@ + zeros((k + 1) as nat));
            }
            k = k + 1;
        }
        let ghost h = padded_header(prefix@);
        let (mut inbound, outbound) = derive_cipher_states(&header);
        let _advanced = inbound.apply_keystream(header);
        let mut unit_buf: Vec<u8> = Vec::new();
        unit_buf.push(len_byte);
        let unit_plain = unit_buf;
        let decrypted = inbound.apply_keystream(unit_plain);
        let unit = decrypted[0];
        proof {
            assert(unit == len_byte ^ aes256_ctr64be_keystream(inbound_key(h), inbound_iv(h), 64));
        }
        let n = payload_len(unit);
        (Handshake { inbound, outbound }, n)
    }

    /// Decrypt the announced payload with the inbound cipher and parse it
    /// as a public-key request. Succeeds exactly when the decrypted bytes
    /// hold a well-formed request; any other payload is malformed.
    pub fn read_request(&mut self, payload: Vec<u8>) -> (r: Result<ReqPqMulti, HandshakeError>)
        requires
            old(self).wf(),
            old(self).inbound@.pos + payload@.len() <= u64::MAX,
        ensures
            final(self).wf(),
            final(self).outbound == old(self).outbound,
            final(self).inbound@.key == old(self).inbound@.key,
            final(self).inbound@.iv == old(self).inbound@.iv,
            final(self).inbound@.pos == old(self).inbound@.pos + payload@.len(),
            ({
                let plain = keystream_xor(
                    old(self).inbound@.key,
                    old(self).inbound@.iv,
                    old(self).inbound@.pos,
                    payload@,
                );
                &&& (r is Ok <==> ReqPqMulti::wire_ok(plain))
                &&& (r is Ok ==> req_parses_to(plain, r->Ok_0))
                &&& (r is Err ==> r->Err_0 == HandshakeError::MalformedRequest)
            }),
    {
        let ghost pbytes = payload@;
        let plain = self.inbound.apply_keystream(payload);
        let ghost plain_view = plain@;
        let mut cur = Cursor::from_vec(plain);
        proof {
            assert(cur.remaining_spec() =~= plain_view);
        }
        ReqPqMulti::parse(&mut cur)
    }

    /// Frame and encrypt an already-built response with the outbound
    /// cipher; the result is what goes on the wire.
    pub fn respond_with(&mut self, resp: &ResPq) -> (r: Vec<u8>)
        requires
            old(self).wf(),
            resp.pq@.len() <= 0xffffff,
            resp.server_public_key_fingerprints@.len() <= 0xffff,
            old(self).outbound@.pos + frame_tail(res_pq_bytes(*resp)).len() <= u64::MAX,
        ensures
            final(self).wf(),
            final(self).inbound == old(self).inbound,
            final(self).outbound@.key == old(self).outbound@.key,
            final(self).outbound@.iv == old(self).outbound@.iv,
            final(self).outbound@.pos == old(self).outbound@.pos + frame_tail(
                res_pq_bytes(*resp),
            ).len(),
            r@ == keystream_xor(
                old(self).outbound@.key,
                old(self).outbound@.iv,
                old(self).outbound@.pos,
                frame_tail(res_pq_bytes(*resp)),
            ),
    {
        proof {
            lemma_res_pq_bytes_len(*resp);
        }
        let bytes = resp.ser();
        let framed = pack_frame_tail(bytes);
        self.outbound.apply_keystream(framed)
    }

    /// Build the response to the request's `nonce` around the semiprime
    /// `pq`, serialize and frame it, and encrypt it with the outbound
    /// cipher. The message identifier comes from the wall clock; every
    /// other byte of the result is determined by the arguments.
    pub fn respond(&mut self, nonce: [u8; 16], pq: Vec<u8>) -> (r: Vec<u8>)
        requires
            old(self).wf(),
            pq@.len() <= 0xffffff,
            old(self).outbound@.pos + pq@.len() + 128 <= u64::MAX,
        ensures
            final(self).wf(),
            final(self).inbound == old(self).inbound,
            final(self).outbound@.key == old(self).outbound@.key,
            final(self).outbound@.iv == old(self).outbound@.iv,
            exists|mid: i64|
                r@ == keystream_xor(
                    old(self).outbound@.key,
                    old(self).outbound@.iv,
                    old(self).outbound@.pos,
                    frame_tail(response_bytes(nonce@, pq@, mid)),
                ),
    {
        let ghost pq_view = pq@;
        let resp = ResPq::generate(nonce, pq);
        proof {
            lemma_res_pq_bytes_len(resp);
            assert(res_pq_bytes(resp) == response_bytes(nonce@, pq_view, resp.message_id));
        }
        let ghost mid = resp.message_id;
        let r = self.respond_with(&resp);
        proof {
            assert(r@ == keystream_xor(
                old(self).outbound@.key,
                old(self).outbound@.iv,
                old(self).outbound@.pos,
                frame_tail(response_bytes(nonce@, pq_view, mid)),
            ));
        }
        r
    }
}

} // verus!

