use pq_handshake::driver::{default_pq, Handshake};
use pq_handshake::err::HandshakeError;
use pq_handshake::keys::derive_cipher_states;
use pq_handshake::msg::ReqPqMulti;

// A client-side view of one connection: the client derives the same two
// cipher states from its header, encrypts what it sends with the inbound
// state (advancing it over the whole 64-byte header first, as the wire
// protocol does) and decrypts the server's reply with the outbound state.
fn client_header() -> Vec<u8> {
    (0..64u8).map(|i| i.wrapping_mul(73).wrapping_add(11)).collect()
}

fn padded(prefix: &[u8]) -> Vec<u8> {
    let mut h = prefix[..56].to_vec();
    h.extend_from_slice(&[0u8; 8]);
    h
}

#[test]
fn announced_payload_length_is_four_per_unit() {
    // The driver reads exactly 4 * k bytes for a length byte decrypting to
    // k: k = 0 announces an empty payload, k = 10 exactly one request.
    let header = client_header();
    let (mut client_enc, _) = derive_cipher_states(&padded(&header));
    let _ = client_enc.apply_keystream(padded(&header));
    for unit in [0u8, 10u8] {
        let enc_len = client_enc.apply_keystream(vec![unit]);
        let (_, n) = Handshake::start(&header[..56].to_vec(), enc_len[0]);
        assert_eq!(n, 4 * unit as usize);
        // Re-derive for the next round: fresh connection, fresh keystream.
        let (mut fresh, _) = derive_cipher_states(&padded(&header));
        let _ = fresh.apply_keystream(padded(&header));
        client_enc = fresh;
    }
}

#[test]
fn zero_length_payload_is_malformed() {
    let header = client_header();
    let (mut client_enc, _) = derive_cipher_states(&padded(&header));
    let _ = client_enc.apply_keystream(padded(&header));
    let enc_len = client_enc.apply_keystream(vec![0u8]);
    let (mut hs, n) = Handshake::start(&header[..56].to_vec(), enc_len[0]);
    assert_eq!(n, 0);
    let err = hs.read_request(Vec::new()).unwrap_err();
    assert_eq!(err, HandshakeError::MalformedRequest);
}

#[test]
fn four_byte_payload_is_malformed_and_unanswered() {
    // A length unit of 1 announces 4 bytes: far too few for the fixed
    // request layout. The driver must fail the connection and produce no
    // response bytes.
    let header = client_header();
    let (mut client_enc, _) = derive_cipher_states(&padded(&header));
    let _ = client_enc.apply_keystream(padded(&header));
    let enc_len = client_enc.apply_keystream(vec![1u8]);
    let payload = client_enc.apply_keystream(vec![0xEE; 4]);
    let (mut hs, n) = Handshake::start(&header[..56].to_vec(), enc_len[0]);
    assert_eq!(n, 4);
    let err = hs.read_request(payload).unwrap_err();
    assert_eq!(err, HandshakeError::MalformedRequest);
    // The caller writes nothing on error; the driver never built response
    // bytes for this connection.
}

#[test]
fn end_to_end_handshake() {
    // A well-formed request under a random header: the server's reply,
    // decrypted with the outbound state, is a serialized response echoing
    // the request's nonce, under the response constructor tag.
    let header = client_header();
    let (mut client_enc, mut client_dec) = derive_cipher_states(&padded(&header));
    let _ = client_enc.apply_keystream(padded(&header));

    let req = ReqPqMulti {
        auth_key_id: 0,
        message_id: 0x0102030405060708,
        message_length: 20,
        magic: 0xbe7e8ef1u32,
        nonce: [0xAB; 16],
    };
    let body = req.ser();
    assert_eq!(body.len(), 40);

    let enc_len = client_enc.apply_keystream(vec![10u8]);
    let enc_payload = client_enc.apply_keystream(body);

    let (mut hs, n) = Handshake::start(&header[..56].to_vec(), enc_len[0]);
    assert_eq!(n, 40);
    let parsed = hs.read_request(enc_payload).unwrap();
    assert_eq!(parsed.nonce, [0xAB; 16]);
    assert_eq!(parsed.auth_key_id, 0);

    let reply = hs.respond(parsed.nonce, default_pq());
    let plain = client_dec.apply_keystream(reply);

    // 84 bytes: 21 words, so the frame travels without a length prefix.
    assert_eq!(plain.len(), 84);
    // magic at [20..24), nonce echoed at [24..40).
    assert_eq!(&plain[20..24], &0x05162463u32.to_le_bytes());
    assert_eq!(&plain[24..40], &[0xAB; 16]);
    // server nonce at [40..56).
    assert_eq!(&plain[40..56], &0x1337u128.to_le_bytes());
    // the length-prefixed semiprime at [56..68).
    assert_eq!(&plain[56..68], &[8, 0x81, 0xf9, 0x08, 0x1a, 0x94, 0x48, 0xed, 0x17, 0, 0, 0]);
    // the fingerprint sequence at [68..84).
    assert_eq!(&plain[68..76], &[0x15, 0xc4, 0xb5, 0x1c, 1, 0, 0, 0]);
    assert_eq!(&plain[76..84], &(0xd09d1d85de64fd85u64 as i64).to_le_bytes());
}
