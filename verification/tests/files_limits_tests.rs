use transpo2::files::{
    decode_size_prefix, encode_header, end_marker, Crypto, SegmentReader, SegmentWriter, WriterError,
};
use transpo2::quotas::QuotaData;
use transpo2::rate_limit::{rate_exceeds, RateLimit};
use transpo2::storage_limit::StorageLimitData;
use transpo2::zip::{Archive, CompressionMode, ZipTime};

const KEY: [u8; 32] = [7u8; 32];

#[test]
fn crypto_round_trip() {
    let mut enc = Crypto::from_slice(&KEY);
    let mut dec = Crypto::from_slice(&KEY);
    let c1 = enc.encrypt_bytes(b"hello").unwrap();
    let c2 = enc.encrypt_string("world".to_string()).unwrap();
    assert_eq!(c1.len(), 5 + 16);
    assert_ne!(c1[..5].to_vec(), b"hello".to_vec());
    assert_eq!(dec.decrypt_bytes(&c1).unwrap(), b"hello".to_vec());
    assert_eq!(dec.decrypt_string(c2).unwrap(), "world");
    let mut other = Crypto::from_slice(&[8u8; 32]);
    assert!(other.decrypt_bytes(&c1).is_err());
}

#[test]
fn nonces_advance() {
    let mut a = Crypto::from_slice(&KEY);
    let x = a.encrypt_bytes(b"same").unwrap();
    let y = a.encrypt_bytes(b"same").unwrap();
    assert_ne!(x, y);
}

#[test]
fn size_prefixes() {
    let framed = encode_header(&[1, 2, 3], 10).unwrap();
    assert_eq!(framed, vec![0, 3, 1, 2, 3]);
    assert!(matches!(encode_header(&[0u8; 11], 10), Err(WriterError::ValueTooLarge)));
    assert_eq!(decode_size_prefix(1, 2), 258);
    assert_eq!(end_marker(), vec![0, 0]);
}

#[test]
fn segments_round_trip() {
    let data: Vec<u8> = (0..25000u32).map(|i| (i * 7 % 256) as u8).collect();
    let mut w = SegmentWriter::new(Crypto::from_slice(&KEY));
    let mut out = w.write_metadata("name.bin".to_string(), "application/octet-stream".to_string()).unwrap();
    let mut rest: &[u8] = &data;
    while !rest.is_empty() {
        let n = w.accept(rest);
        rest = &rest[n..];
        if w.is_full() || rest.is_empty() {
            w.seal().unwrap();
            let p = w.pending().to_vec();
            out.extend_from_slice(&p);
            w.advance(p.len());
        }
    }
    out.extend_from_slice(&w.end());

    // read whole from the first nonce, the stream gives back the name, the
    // mime type and the contents, one after the other
    let mut whole = SegmentReader::new(Crypto::from_slice(&KEY));
    let mut at = 0;
    let mut all = Vec::new();
    while !whole.is_finished() {
        let need = whole.needed();
        if need == 0 {
            all.extend_from_slice(&whole.take(4096));
            continue;
        }
        whole.supply(&out[at..at + need]).unwrap();
        at += need;
    }
    let mut expected = b"name.binapplication/octet-stream".to_vec();
    expected.extend_from_slice(&data);
    assert_eq!(all, expected);

    // the metadata: two framed ciphertexts
    let mut meta = Crypto::from_slice(&KEY);
    let n1 = decode_size_prefix(out[0], out[1]);
    let name = meta.decrypt_string(out[2..2 + n1].to_vec()).unwrap();
    assert_eq!(name, "name.bin");
    let off = 2 + n1;
    let n2 = decode_size_prefix(out[off], out[off + 1]);
    let mime = meta.decrypt_string(out[off + 2..off + 2 + n2].to_vec()).unwrap();
    assert_eq!(mime, "application/octet-stream");

    // the contents: a reader continuing with the next nonces
    let mut r = SegmentReader::new(meta);
    let mut pos = off + 2 + n2;
    let mut plain = Vec::new();
    while !r.is_finished() {
        let need = r.needed();
        if need == 0 {
            plain.extend_from_slice(&r.take(1000));
            continue;
        }
        let n = need.min(333);
        r.supply(&out[pos..pos + n]).unwrap();
        pos += n;
    }
    assert_eq!(pos, out.len());
    assert_eq!(plain, data);
}

#[test]
fn oversized_segments_fail() {
    let mut r = SegmentReader::new(Crypto::from_slice(&KEY));
    assert!(r.supply(&[0xff, 0xff]).is_err());
    assert!(r.is_failed());
}

#[test]
fn zip_records() {
    let t = ZipTime { year: 2024, month: 5, day: 17, hour: 12, minute: 30, second: 10 };
    let mut a = Archive::new();
    let h = a.start_new_file(b"a.txt".to_vec(), t, false);
    assert_eq!(&h[..4], &[0x50, 0x4b, 0x03, 0x04]);
    assert_eq!(h.len(), 30 + 5);
    a.append_data(b"ab").unwrap();
    a.append_data(b"c").unwrap();
    let dd = a.finish_file().unwrap();
    assert_eq!(&dd[..4], &[0x50, 0x4b, 0x07, 0x08]);
    assert_eq!(&dd[4..8], &0x352441c2u32.to_le_bytes());
    assert_eq!(&dd[8..12], &3u32.to_le_bytes());
    assert!(a.finish_file().is_err());
    assert!(a.append_data(b"x").is_err());
    let end = a.finish();
    assert_eq!(&end[..4], &[0x50, 0x4b, 0x01, 0x02]);
    let eocd = &end[end.len() - 22..];
    assert_eq!(&eocd[..4], &[0x50, 0x4b, 0x05, 0x06]);
    assert_eq!(u16::from_le_bytes([eocd[10], eocd[11]]), 1);
    let offset = u32::from_le_bytes([eocd[16], eocd[17], eocd[18], eocd[19]]);
    assert_eq!(offset as usize, h.len() + 3 + dd.len());
    assert!(matches!(CompressionMode::Deflate(6), CompressionMode::Deflate(6)));
}

#[test]
fn storage_accounting() {
    let mut s = StorageLimitData::new(100, 40);
    assert!(s.check(60));
    assert!(!s.check(61));
    s.add(50);
    assert!(!s.check(20));
    s.deduct(30);
    assert!(s.check(40));
    assert!(!s.correct(100));
    assert!(s.correct(0));
    assert!(s.check(50));
}

#[test]
fn quotas_limit_bytes() {
    let mut q = QuotaData::new(100, 60);
    assert!(q.check(100));
    assert!(!q.check(101));
    q.deduct(70);
    assert!(q.check(30));
    assert!(!q.check(100));
    q.replenish_by(60);
    assert!(q.check(90));
    q.replenish_by(1_000_000);
    assert!(q.check(100));
    assert!(!q.check(101));
}

#[test]
fn transfer_rates() {
    assert!(rate_exceeds(1000, 1000, 999));
    assert!(!rate_exceeds(1000, 1000, 1000));
    assert!(rate_exceeds(0, 0, 5));
}

fn wait(d: std::time::Duration) {
    let start = std::time::Instant::now();
    while start.elapsed() < d {}
}

#[test]
fn test_rate_limit() {
    let mut l = RateLimit::new(10);

    wait(std::time::Duration::from_millis(500));
    assert_eq!(l.exceeds_min_rate(6), true);
    wait(std::time::Duration::from_secs(1));
    assert_eq!(l.exceeds_min_rate(7), false);
}

#[test]
fn zip_checksums_follow_the_data() {
    let t = ZipTime { year: 2024, month: 5, day: 17, hour: 12, minute: 30, second: 10 };
    let mut a = Archive::new();
    a.start_new_file(b"empty".to_vec(), t, false);
    let dd = a.finish_file().unwrap();
    assert_eq!(&dd[4..8], &0u32.to_le_bytes());
    a.start_new_file(b"digits".to_vec(), t, true);
    a.append_data(b"12345").unwrap();
    a.append_data(b"6789").unwrap();
    let dd = a.finish_file().unwrap();
    assert_eq!(&dd[4..8], &0xcbf43926u32.to_le_bytes());
}

#[test]
fn link_keys() {
    let text = transpo2::b64::base64_encode(&KEY);
    let mut from_link = Crypto::from_b64_key(&text).unwrap();
    let mut enc = Crypto::from_slice(&KEY);
    let c = enc.encrypt_bytes(b"payload").unwrap();
    assert_eq!(from_link.decrypt_bytes(&c).unwrap(), b"payload".to_vec());
    assert!(Crypto::from_b64_key(&transpo2::b64::base64_encode(&[1u8; 31])).is_none());
    assert!(Crypto::from_b64_key(b"A").is_none());
}

#[test]
fn commits_count_against_quota_and_storage() {
    use_accounting();
}

fn use_accounting() {
    let q = transpo2::quotas::Quota::new(100, 0);
    let sl = transpo2::storage_limit::StorageLimit::new(StorageLimitData::new(1000, 10));
    let mut written = 0usize;
    let mut g = transpo2::files::Accounting::check(500, written, &q, &sl, 60).unwrap();
    transpo2::files::Accounting::commit(&mut g, &mut written, 500, 60);
    g.release();
    assert_eq!(written, 60);
    let sg = sl.lock();
    assert_eq!(sg.size(), Some(70));
    sg.release();
    assert!(matches!(
        transpo2::files::Accounting::check(500, written, &q, &sl, 50),
        Err(WriterError::QuotaExceeded)
    ));
    let mut g = transpo2::files::Accounting::check(500, written, &q, &sl, 40).unwrap();
    transpo2::files::Accounting::commit(&mut g, &mut written, 500, 40);
    g.release();
    assert_eq!(written, 100);
}

#[test]
fn headers_that_fit_are_written() {
    let mut w = SegmentWriter::new(Crypto::from_slice(&KEY));
    let v = w.write_metadata("a".repeat(496), "m".repeat(256)).unwrap();
    assert_eq!(v.len(), 2 + 512 + 2 + 272);
    let mut w = SegmentWriter::new(Crypto::from_slice(&KEY));
    assert!(matches!(w.write_metadata("a".repeat(497), "m".to_string()), Err(WriterError::ValueTooLarge)));
    let mut w = SegmentWriter::new(Crypto::from_slice(&KEY));
    assert!(matches!(w.write_metadata("a".to_string(), "m".repeat(257)), Err(WriterError::ValueTooLarge)));
}
