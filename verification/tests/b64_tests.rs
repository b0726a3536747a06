use transpo2::b64::{
    base64_decode, base64_decode_length, base64_encode, base64_encode_length,
    i64_from_b64_bytes, i64_to_b64_bytes, map_b64,
};

#[test]
fn test_base64_encode() {
    let msg = "a simple test";
    let expected_b64 = "YSBzaW1wbGUgdGVzdA";

    let b64 = base64_encode(msg.as_bytes());

    assert_eq!(expected_b64.as_bytes(), b64);
}

#[test]
fn test_base64_decode() {
    let b64 = "YSBzaW1wbGUgdGVzdA";
    let expected_msg = "a simple test";

    let msg = base64_decode(b64.as_bytes()).unwrap();

    assert_eq!(expected_msg.as_bytes(), msg);
}

#[test]
fn encode_uses_url_safe_digits() {
    assert_eq!(base64_encode(&[0xfb, 0xff]), b"-_8".to_vec());
    assert_eq!(base64_decode(b"-_8").unwrap(), vec![0xfb, 0xff]);
}

#[test]
fn encode_lengths() {
    assert_eq!(base64_encode_length(0), 0);
    assert_eq!(base64_encode_length(1), 2);
    assert_eq!(base64_encode_length(2), 3);
    assert_eq!(base64_encode_length(3), 4);
    assert_eq!(base64_encode_length(32), 43);
    assert_eq!(base64_encode(&[1, 2, 3, 4]).len(), base64_encode_length(4));
}

#[test]
fn decode_lengths() {
    assert_eq!(base64_decode_length(0), Some(0));
    assert_eq!(base64_decode_length(1), None);
    assert_eq!(base64_decode_length(2), Some(1));
    assert_eq!(base64_decode_length(3), Some(2));
    assert_eq!(base64_decode_length(11), Some(8));
    assert_eq!(base64_decode_length(base64_encode_length(100)), Some(100));
}

#[test]
fn decode_rejects_length_one_mod_four() {
    assert_eq!(base64_decode(b"A"), None);
    assert_eq!(base64_decode(b"AAAAA"), None);
    assert_eq!(base64_decode(b""), Some(vec![]));
}

#[test]
fn decode_outside_alphabet_wraps() {
    // '!' maps to 255: (255 << 2) wraps to 252, plus (0 >> 4)
    assert_eq!(map_b64(b'!'), 255);
    assert_eq!(base64_decode(b"!A").unwrap(), vec![252]);
}

#[test]
fn roundtrip_all_lengths() {
    let data: Vec<u8> = (0..=255u8).collect();
    for n in 0..data.len() {
        let enc = base64_encode(&data[..n]);
        assert_eq!(enc.len(), base64_encode_length(n));
        assert_eq!(base64_decode(&enc).unwrap(), data[..n].to_vec());
    }
}

#[test]
fn map_b64_values() {
    assert_eq!(map_b64(b'A'), 0);
    assert_eq!(map_b64(b'z'), 51);
    assert_eq!(map_b64(b'9'), 61);
    assert_eq!(map_b64(b'-'), 62);
    assert_eq!(map_b64(b'_'), 63);
    assert_eq!(map_b64(b'+'), 255);
}

#[test]
fn upload_ids_roundtrip() {
    for id in [0i64, 1, -1, i64::MAX, i64::MIN, 0x0123_4567_89ab_cdef] {
        let s = i64_to_b64_bytes(id);
        assert_eq!(s.len(), 11);
        assert_eq!(i64_from_b64_bytes(&s), Some(id));
    }
    assert_eq!(i64_to_b64_bytes(0), b"AAAAAAAAAAA".to_vec());
    assert_eq!(i64_from_b64_bytes(b"AAAA"), None);
    assert_eq!(i64_from_b64_bytes(b"AAAAA"), None);
}
