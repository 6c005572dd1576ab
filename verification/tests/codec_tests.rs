use grammers_tl_types::{Cursor as TlCursor, Deserializable, Serializable};
use pq_handshake::codec::{
    write_bytes16, write_i64, write_i64_vector, write_tl_bytes, write_u32, Cursor,
};

#[test]
fn u32_roundtrip_through_cursor() {
    let mut buf: Vec<u8> = Vec::new();
    write_u32(&mut buf, 0x05162463);
    assert_eq!(buf, vec![0x63, 0x24, 0x16, 0x05]);
    let mut cur = Cursor::from_vec(buf);
    assert_eq!(cur.read_u32().unwrap(), 0x05162463);
    assert_eq!(cur.remaining(), 0);
}

#[test]
fn i64_roundtrip_through_cursor() {
    let values: [i64; 5] = [0, 1, -1, i64::MAX, i64::MIN];
    for v in values {
        let mut buf: Vec<u8> = Vec::new();
        write_i64(&mut buf, v);
        let mut cur = Cursor::from_vec(buf);
        assert_eq!(cur.read_i64().unwrap(), v);
    }
}

#[test]
fn truncated_reads_fail() {
    let mut cur = Cursor::from_vec(vec![1, 2, 3]);
    assert!(cur.read_u32().is_err());
    assert!(cur.read_i64().is_err());
    assert!(cur.read_bytes16().is_err());
    // A failed read consumes nothing: three bytes still remain.
    assert_eq!(cur.remaining(), 3);
}

#[test]
fn bytes16_roundtrip() {
    let block: [u8; 16] = [9, 8, 7, 6, 5, 4, 3, 2, 1, 0, 11, 12, 13, 14, 15, 16];
    let mut buf: Vec<u8> = Vec::new();
    write_bytes16(&mut buf, &block);
    assert_eq!(buf.len(), 16);
    let mut cur = Cursor::from_vec(buf);
    assert_eq!(cur.read_bytes16().unwrap(), block);
}

#[test]
fn tl_bytes_short_form_exact() {
    let mut buf: Vec<u8> = Vec::new();
    write_tl_bytes(&mut buf, &vec![0x7f]);
    assert_eq!(buf, vec![0x01, 0x7f, 0x00, 0x00]);

    let mut empty: Vec<u8> = Vec::new();
    write_tl_bytes(&mut empty, &Vec::new());
    assert_eq!(empty, vec![0x00, 0x00, 0x00, 0x00]);

    // Three bytes plus the length prefix land exactly on the boundary.
    let mut exact: Vec<u8> = Vec::new();
    write_tl_bytes(&mut exact, &vec![0xaa, 0xbb, 0xcc]);
    assert_eq!(exact, vec![0x03, 0xaa, 0xbb, 0xcc]);
}

#[test]
fn tl_bytes_long_form_exact() {
    let payload: Vec<u8> = vec![0x5a; 300];
    let mut buf: Vec<u8> = Vec::new();
    write_tl_bytes(&mut buf, &payload);
    // 254 marker, then 300 little-endian in three bytes, then the payload,
    // then zero padding to the next 4-byte boundary.
    assert_eq!(buf[0], 254);
    assert_eq!(&buf[1..4], &[44, 1, 0]);
    assert_eq!(&buf[4..304], &payload[..]);
    assert_eq!(buf.len(), 304);
}

#[test]
fn i64_vector_exact() {
    let mut buf: Vec<u8> = Vec::new();
    write_i64_vector(&mut buf, &vec![0x7f]);
    assert_eq!(
        buf,
        vec![0x15, 0xc4, 0xb5, 0x1c, 0x01, 0x00, 0x00, 0x00, 0x7f, 0, 0, 0, 0, 0, 0, 0]
    );
}

#[test]
fn serialization_matches_reference_codec() {
    // The wire layout must agree byte for byte with what the peer's own
    // codec produces for the same values.
    let v: i64 = -1234567890123456789;
    let mut mine: Vec<u8> = Vec::new();
    write_i64(&mut mine, v);
    assert_eq!(mine, v.to_bytes());

    let u: u32 = 0xbe7e8ef1;
    let mut mine32: Vec<u8> = Vec::new();
    write_u32(&mut mine32, u);
    assert_eq!(mine32, u.to_bytes());

    let block: [u8; 16] = [1, 2, 3, 4, 5, 6, 7, 8, 9, 10, 11, 12, 13, 14, 15, 16];
    let mut mine16: Vec<u8> = Vec::new();
    write_bytes16(&mut mine16, &block);
    assert_eq!(mine16, block.to_bytes());

    let strings: [Vec<u8>; 4] =
        [Vec::new(), vec![0x7f], vec![0x11; 253], vec![0x22; 1000]];
    for s in strings {
        let mut mine_s: Vec<u8> = Vec::new();
        write_tl_bytes(&mut mine_s, &s);
        assert_eq!(mine_s, s.to_bytes());
    }

    let fingerprints: Vec<i64> = vec![0x7f, -42, i64::MIN];
    let mut mine_v: Vec<u8> = Vec::new();
    write_i64_vector(&mut mine_v, &fingerprints);
    assert_eq!(mine_v, fingerprints.to_bytes());
}

#[test]
fn reads_match_reference_codec() {
    let bytes: Vec<u8> = vec![
        0x85, 0xfd, 0x64, 0xde, 0x85, 0x1d, 0x9d, 0xd0, 0x63, 0x24, 0x16, 0x05,
    ];
    let mut mine = Cursor::from_vec(bytes.clone());
    let mut theirs = TlCursor::from_slice(&bytes);
    assert_eq!(mine.read_i64().unwrap(), i64::deserialize(&mut theirs).unwrap());
    assert_eq!(mine.read_u32().unwrap(), u32::deserialize(&mut theirs).unwrap());
}
