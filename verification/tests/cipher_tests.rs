use pq_handshake::cipher::DirectionalCipherState;
use pq_handshake::keys::derive_cipher_states;

fn test_header() -> Vec<u8> {
    // 64 distinct bytes: asymmetric everywhere.
    (1..=64u8).collect()
}

#[test]
fn aes256_ctr_known_answer() {
    // SP 800-38A, CTR-AES256, first block: the first 16 keystream bytes are
    // the block cipher applied to the initial counter block, whatever the
    // counter flavor. A wrapper that handed its input back unchanged, or ran
    // anything but AES-256, would fail this.
    let key: Vec<u8> = vec![
        0x60, 0x3d, 0xeb, 0x10, 0x15, 0xca, 0x71, 0xbe, 0x2b, 0x73, 0xae, 0xf0, 0x85, 0x7d,
        0x77, 0x81, 0x1f, 0x35, 0x2c, 0x07, 0x3b, 0x61, 0x08, 0xd7, 0x2d, 0x98, 0x10, 0xa3,
        0x09, 0x14, 0xdf, 0xf4,
    ];
    let iv: Vec<u8> = vec![
        0xf0, 0xf1, 0xf2, 0xf3, 0xf4, 0xf5, 0xf6, 0xf7, 0xf8, 0xf9, 0xfa, 0xfb, 0xfc, 0xfd,
        0xfe, 0xff,
    ];
    let plaintext: Vec<u8> = vec![
        0x6b, 0xc1, 0xbe, 0xe2, 0x2e, 0x40, 0x9f, 0x96, 0xe9, 0x3d, 0x7e, 0x11, 0x73, 0x93,
        0x17, 0x2a,
    ];
    let expected: Vec<u8> = vec![
        0x60, 0x1e, 0xc3, 0x13, 0x77, 0x57, 0x89, 0xa5, 0xb7, 0xa7, 0xf5, 0x04, 0xbb, 0xf3,
        0xd2, 0x28,
    ];
    let mut state = DirectionalCipherState::new(key, iv);
    assert_eq!(state.apply_keystream(plaintext), expected);
}

#[test]
fn keystream_roundtrip_on_bytes() {
    // Encrypting then decrypting with a fresh state over the same key and
    // initialization value restores the original bytes.
    let header = test_header();
    let (mut enc, _) = derive_cipher_states(&header);
    let (mut dec, _) = derive_cipher_states(&header);
    let data: Vec<u8> = (0..200u8).map(|b| b.wrapping_mul(37)).collect();
    let encrypted = enc.apply_keystream(data.clone());
    assert_ne!(encrypted, data);
    assert_eq!(dec.apply_keystream(encrypted), data);
}

#[test]
fn keystream_advances_with_position() {
    // Two equal chunks fed to one state encrypt differently, because the
    // state advances; a fresh state reproduces the first chunk's bytes.
    let header = test_header();
    let (mut one, _) = derive_cipher_states(&header);
    let (mut fresh, _) = derive_cipher_states(&header);
    let chunk: Vec<u8> = vec![0x55; 32];
    let first = one.apply_keystream(chunk.clone());
    let second = one.apply_keystream(chunk.clone());
    assert_ne!(first, second);
    assert_eq!(fresh.apply_keystream(chunk), first);
}

#[test]
fn directions_disagree() {
    // The inbound and outbound states of one header produce different
    // keystreams: decrypting one direction's output with the other fails to
    // restore the bytes.
    let header = test_header();
    let (mut inbound, _) = derive_cipher_states(&header);
    let (_, mut outbound) = derive_cipher_states(&header);
    let data: Vec<u8> = vec![0xA5; 48];
    let encrypted = inbound.apply_keystream(data.clone());
    assert_ne!(outbound.apply_keystream(encrypted), data);
}
