//! Upload accounting, the encryption of uploads, and the framing of
//! encrypted uploads into length-prefixed segments.
//!
//! An encrypted upload is written as: the file name ciphertext and the mime
//! type ciphertext, each prefixed by its length as a big-endian `u16`, then
//! segments, each a big-endian `u16` length followed by that many bytes of
//! ciphertext, and finally two zero bytes.
use vstd::prelude::*;
use aes_gcm::aead::{Aead, NewAead};
use aes_gcm::{Aes256Gcm, Key, Nonce};
use crate::constants::FORM_READ_BUFFER_SIZE;
use crate::quotas::{Quota, QuotaGuard, QuotaData, spec_deducted};
use crate::storage_limit::{StorageLimit, StorageLimitGuard, StorageLimitData, spec_saturating_add};
use crate::text::{utf8_str, append_bytes};
use vstd::string::*;

verus! {

/// Length of the size prefix of a header or a segment.
pub const SIZE_PREFIX_LEN: usize = 2;

/// Longest ciphertext of one segment: a full plaintext buffer and its tag.
pub const MAX_CHUNK_SIZE: usize = 10256;

/// Longest ciphertext of a file name.
pub const MAX_FILE_NAME_CIPHERTEXT_SIZE: usize = 512;

/// Longest ciphertext of a mime type.
pub const MAX_MIME_TYPE_CIPHERTEXT_SIZE: usize = 272;

/// `std::io::Error`, carried unopened inside `WriterError::IO`.
#[verifier::external_type_specification]
#[verifier::external_body]
pub struct ExIoError(std::io::Error);

/// `aes_gcm::aead::Error`, the (empty) error of the AEAD operations.
#[verifier::external_type_specification]
#[verifier::external_body]
pub struct ExAeadError(aes_gcm::aead::Error);

/// Why a write to an upload failed.
#[derive(Debug)]
pub enum WriterError {
    QuotaExceeded,
    StorageLimitExceeded,
    FileSizeLimitExceeded,
    NotSupported,
    ValueTooLarge,
    Encryption,
    IO(std::io::Error),
}

/// An encryption or decryption failed (or a decrypted name was not UTF-8).
#[derive(Debug)]
pub struct CryptoError;

// Accounting

/// The limits imposed on one upload: its size so far against the maximum
/// upload size, the uploader's quota and the storage limit.
pub struct Accounting {
    pub max_upload_size: usize,
    pub bytes_written: usize,
    pub quota: Quota,
    pub storage_limit: StorageLimit,
}

/// The quota and storage limit, locked after a successful check, valid for
/// writes of at most `max_write_size` bytes.
pub struct AccountingGuard<'a> {
    max_write_size: usize,
    quota: QuotaGuard<'a>,
    storage_limit: StorageLimitGuard<'a>,
}

impl<'a> AccountingGuard<'a> {
    pub closed spec fn max_write(&self) -> usize {
        self.max_write_size
    }

    /// The locked quota data, `None` for the dummy quota.
    pub closed spec fn quota_data(&self) -> Option<QuotaData> {
        self.quota.data()
    }

    /// The locked storage data, `None` without a storage limit.
    pub closed spec fn storage_data(&self) -> Option<StorageLimitData> {
        self.storage_limit.data()
    }

    pub closed spec fn wf(&self) -> bool {
        &&& self.quota.data() matches Some(q) ==> q.wf() && q.remaining() >= self.max_write_size
        &&& self.storage_limit.data() matches Some(s) ==> s.size() + self.max_write_size <= s.max_size()
    }

    /// Unlocks the quota and the storage limit, keeping the changes made.
    pub fn release(self)
        requires
            self.wf(),
    {
        let AccountingGuard { max_write_size, quota, storage_limit } = self;
        quota.release();
        storage_limit.release();
    }
}

impl Accounting {
    /// Checks that `num_bytes` more bytes may be written: the upload stays
    /// within its maximum size (else `FileSizeLimitExceeded`), the quota
    /// has them after a refill (else `QuotaExceeded`), and they fit in the
    /// storage limit (else `StorageLimitExceeded`). On success both limits
    /// stay locked in the returned guard until it is committed.
    pub fn check<'a>(
        max_upload_size: usize,
        bytes_written: usize,
        quota: &'a Quota,
        storage_limit: &'a StorageLimit,
        num_bytes: usize,
    ) -> (r: Result<AccountingGuard<'a>, WriterError>)
        ensures
            bytes_written + num_bytes > max_upload_size <==> r matches Err(
                WriterError::FileSizeLimitExceeded,
            ),
            r matches Err(WriterError::QuotaExceeded) ==> !quota.is_unlimited(),
            r matches Err(WriterError::StorageLimitExceeded) ==> !storage_limit.is_unlimited(),
            r is Ok || r matches Err(WriterError::FileSizeLimitExceeded) || r matches Err(
                WriterError::QuotaExceeded,
            ) || r matches Err(WriterError::StorageLimitExceeded),
            bytes_written + num_bytes <= max_upload_size && quota.is_unlimited()
                && storage_limit.is_unlimited() ==> r is Ok,
            r matches Ok(g) ==> g.max_write() == num_bytes && g.wf(),
    {
        // Check max file size
        if num_bytes > max_upload_size || bytes_written > max_upload_size - num_bytes {
            return Err(WriterError::FileSizeLimitExceeded);
        }
        // Check quota

        let mut quota_guard = quota.lock();
        if !quota_guard.check(num_bytes) {
            quota_guard.release();
            return Err(WriterError::QuotaExceeded);
        }
        // Check storage limit

        let storage_guard = storage_limit.lock();
        if !storage_guard.check(num_bytes) {
            storage_guard.release();
            quota_guard.release();
            return Err(WriterError::StorageLimitExceeded);
        }
        Ok(AccountingGuard { max_write_size: num_bytes, quota: quota_guard, storage_limit: storage_guard })
    }

    /// Commits a write of `num_bytes` bytes checked by `guard`: counts them
    /// in `bytes_written`, takes them from the quota (after its refill) and
    /// adds them to the storage used. The guard then allows no more writes;
    /// `release` unlocks both limits.
    pub fn commit(guard: &mut AccountingGuard, bytes_written: &mut usize, max_upload_size: usize, num_bytes: usize)
        requires
            old(guard).wf(),
            num_bytes <= old(guard).max_write(),
            *old(bytes_written) + old(guard).max_write() <= max_upload_size,
        ensures
            *final(bytes_written) == *old(bytes_written) + num_bytes,
            final(guard).wf(),
            final(guard).max_write() == 0,
            match (old(guard).quota_data(), final(guard).quota_data()) {
                (Some(a), Some(b)) => {
                    &&& b.remaining() == spec_deducted(
                            a.remaining() as int,
                            a.max() as int,
                            a.per_minute() as int,
                            b.last_refill() as int,
                            num_bytes as int,
                        )
                    &&& b.max() == a.max() && b.per_minute() == a.per_minute()
                    &&& b.accessors() == a.accessors()
                },
                (None, None) => true,
                _ => false,
            },
            match (old(guard).storage_data(), final(guard).storage_data()) {
                (Some(a), Some(b)) => b.size() == a.size() + num_bytes && b.written()
                    == spec_saturating_add(a.written() as int, num_bytes as int) && b.max_size()
                    == a.max_size(),
                (None, None) => true,
                _ => false,
            },
    {
        *bytes_written += num_bytes;
        guard.quota.deduct(num_bytes);
        guard.storage_limit.add(num_bytes);
        guard.max_write_size = 0;
    }
}

// Encryption

/// The name of the ciphertext (with its 16-byte tag appended) that
/// AES-256-GCM gives for `plaintext` under `key` and `nonce`, with no
/// associated data.
pub uninterp spec fn aes256gcm_seal(key: Seq<u8>, nonce: Seq<u8>, plaintext: Seq<u8>) -> Seq<u8>;

/// The name of the outcome of AES-256-GCM decryption of `ciphertext` under
/// `key` and `nonce` with no associated data: the plaintext, or `None` when
/// authentication fails.
pub uninterp spec fn aes256gcm_open(key: Seq<u8>, nonce: Seq<u8>, ciphertext: Seq<u8>) -> Option<Seq<u8>>;

/// `<Aes256Gcm as Aead>::encrypt` with the given key and nonce. Claims: it
/// fails exactly for plaintexts longer than `aes_gcm::P_MAX` (2^36 bytes),
/// its result is the named ciphertext, 16 bytes longer than the plaintext,
/// and decrypting that ciphertext under the same key and nonce gives the
/// plaintext back.
#[verifier::external_body]
fn aes256gcm_encrypt(key: &[u8; 32], nonce: &[u8; 12], plaintext: &[u8]) -> (r: Result<Vec<u8>, aes_gcm::aead::Error>)
    ensures
        r is Ok <==> plaintext@.len() <= 0x10_0000_0000,
        r matches Ok(c) ==> {
            &&& c@ == aes256gcm_seal(key@, nonce@, plaintext@)
            &&& c@.len() == plaintext@.len() + 16
            &&& aes256gcm_open(key@, nonce@, c@) == Some(plaintext@)
        },
{
    let cipher = Aes256Gcm::new(Key::from_slice(key));
    cipher.encrypt(Nonce::from_slice(nonce), plaintext)
}

/// `<Aes256Gcm as Aead>::decrypt` with the given key and nonce. Claims: its
/// outcome is the named decryption outcome.
#[verifier::external_body]
fn aes256gcm_decrypt(key: &[u8; 32], nonce: &[u8; 12], ciphertext: &[u8]) -> (r: Result<Vec<u8>, aes_gcm::aead::Error>)
    ensures
        match r {
            Ok(p) => aes256gcm_open(key@, nonce@, ciphertext@) == Some(p@),
            Err(_) => aes256gcm_open(key@, nonce@, ciphertext@) is None,
        },
{
    let cipher = Aes256Gcm::new(Key::from_slice(key));
    cipher.decrypt(Nonce::from_slice(nonce), ciphertext)
}

/// The nonce of the operation numbered `count`: the 96-bit little-endian
/// representation of the counter.
pub open spec fn nonce_for(count: u64) -> Seq<u8> {
    seq![
        count as u8,
        (count >> 8u64) as u8,
        (count >> 16u64) as u8,
        (count >> 24u64) as u8,
        (count >> 32u64) as u8,
        (count >> 40u64) as u8,
        (count >> 48u64) as u8,
        (count >> 56u64) as u8,
        0u8,
        0u8,
        0u8,
        0u8,
    ]
}

/// Distinct counters give distinct nonces, so no nonce is used twice
/// under one key.
pub proof fn lemma_nonces_distinct(a: u64, b: u64)
    requires
        a != b,
    ensures
        nonce_for(a) != nonce_for(b),
{
    if nonce_for(a) == nonce_for(b) {
        assert(nonce_for(a)[0] == nonce_for(b)[0]);
        assert(nonce_for(a)[1] == nonce_for(b)[1]);
        assert(nonce_for(a)[2] == nonce_for(b)[2]);
        assert(nonce_for(a)[3] == nonce_for(b)[3]);
        assert(nonce_for(a)[4] == nonce_for(b)[4]);
        assert(nonce_for(a)[5] == nonce_for(b)[5]);
        assert(nonce_for(a)[6] == nonce_for(b)[6]);
        assert(nonce_for(a)[7] == nonce_for(b)[7]);
        assert(a == b) by (bit_vector)
            requires
                a as u8 == b as u8,
                (a >> 8u64) as u8 == (b >> 8u64) as u8,
                (a >> 16u64) as u8 == (b >> 16u64) as u8,
                (a >> 24u64) as u8 == (b >> 24u64) as u8,
                (a >> 32u64) as u8 == (b >> 32u64) as u8,
                (a >> 40u64) as u8 == (b >> 40u64) as u8,
                (a >> 48u64) as u8 == (b >> 48u64) as u8,
                (a >> 56u64) as u8 == (b >> 56u64) as u8,
        ;
    }
}

/// AES-256-GCM with a counter nonce: the file name is encrypted with nonce
/// 0, the mime type with 1, and the segments of the contents with 2, 3, ...
pub struct Crypto {
    key: [u8; 32],
    count: u64,
}

impl Crypto {
    pub closed spec fn key(&self) -> Seq<u8> {
        self.key@
    }

    /// Number of operations done so far, the counter of the next nonce.
    pub closed spec fn count(&self) -> u64 {
        self.count
    }

    /// A cipher for the 32-byte key `key_slice`, with its counter at zero.
    pub fn from_slice(key_slice: &[u8]) -> (r: Self)
        requires
            key_slice@.len() == 32,
        ensures
            r.key() == key_slice@,
            r.count() == 0,
    {
        let mut key: [u8; 32] = [0u8; 32];
        let mut i: usize = 0;
        while i < 32
            invariant
                key_slice@.len() == 32,
                i <= 32,
                key@.len() == 32,
                forall|j: int| 0 <= j < i ==> key@[j] == key_slice@[j],
            decreases 32 - i,
        {
            key[i] = key_slice[i];
            i += 1;
        }
        assert(key@ =~= key_slice@);
        Crypto { key, count: 0 }
    }

    /// A cipher for the key of a download link (URL-safe base64), with its
    /// counter at zero; `None` where the text does not decode to 32 bytes.
    pub fn from_b64_key(key: &[u8]) -> (r: Option<Self>)
        ensures
            match r {
                Some(c) => crate::b64::spec_base64_decode(key@) matches Some(k) && k.len() == 32
                    && c.key() == k && c.count() == 0,
                None => !(crate::b64::spec_base64_decode(key@) matches Some(k) && k.len() == 32),
            },
    {
        match crate::b64::base64_decode(key) {
            Some(k) => if k.len() == 32 {
                Some(Crypto::from_slice(k.as_slice()))
            } else {
                None
            },
            None => None,
        }
    }

    /// The nonce of the next operation; advances the counter.
    fn next_nonce(&mut self) -> (n: [u8; 12])
        requires
            old(self).count() < u64::MAX,
        ensures
            n@ == nonce_for(old(self).count()),
            final(self).count() == old(self).count() + 1,
            final(self).key() == old(self).key(),
    {
        let c = self.count;
        let n: [u8; 12] = [
            c as u8,
            (c >> 8u64) as u8,
            (c >> 16u64) as u8,
            (c >> 24u64) as u8,
            (c >> 32u64) as u8,
            (c >> 40u64) as u8,
            (c >> 48u64) as u8,
            (c >> 56u64) as u8,
            0,
            0,
            0,
            0,
        ];
        assert(n@ =~= nonce_for(c));
        self.count = c + 1;
        n
    }

    /// Encrypts `bytes` with the next nonce.
    pub fn encrypt_bytes(&mut self, bytes: &[u8]) -> (r: Result<Vec<u8>, CryptoError>)
        requires
            old(self).count() < u64::MAX,
        ensures
            final(self).count() == old(self).count() + 1,
            final(self).key() == old(self).key(),
            r is Ok <==> bytes@.len() <= 0x10_0000_0000,
            r matches Ok(c) ==> {
                &&& c@ == aes256gcm_seal(old(self).key(), nonce_for(old(self).count()), bytes@)
                &&& c@.len() == bytes@.len() + 16
                &&& aes256gcm_open(old(self).key(), nonce_for(old(self).count()), c@) == Some(
                    bytes@,
                )
            },
    {
        let nonce = self.next_nonce();
        match aes256gcm_encrypt(&self.key, &nonce, bytes) {
            Ok(c) => Ok(c),
            Err(_) => Err(CryptoError),
        }
    }

    /// Encrypts the UTF-8 bytes of `string` with the next nonce.
    pub fn encrypt_string(&mut self, string: String) -> (r: Result<Vec<u8>, CryptoError>)
        requires
            old(self).count() < u64::MAX,
        ensures
            final(self).count() == old(self).count() + 1,
            final(self).key() == old(self).key(),
            r is Ok <==> vstd::utf8::encode_utf8(string@).len() <= 0x10_0000_0000,
            r matches Ok(c) ==> c@ == aes256gcm_seal(
                old(self).key(),
                nonce_for(old(self).count()),
                vstd::utf8::encode_utf8(string@),
            ) && c@.len() == vstd::utf8::encode_utf8(string@).len() + 16 && aes256gcm_open(
                old(self).key(),
                nonce_for(old(self).count()),
                c@,
            ) == Some(vstd::utf8::encode_utf8(string@)),
    {
        self.encrypt_bytes(string.as_str().as_bytes())
    }

    /// Decrypts `bytes` with the next nonce.
    pub fn decrypt_bytes(&mut self, bytes: &[u8]) -> (r: Result<Vec<u8>, CryptoError>)
        requires
            old(self).count() < u64::MAX,
        ensures
            final(self).count() == old(self).count() + 1,
            final(self).key() == old(self).key(),
            match r {
                Ok(p) => aes256gcm_open(old(self).key(), nonce_for(old(self).count()), bytes@)
                    == Some(p@),
                Err(_) => aes256gcm_open(old(self).key(), nonce_for(old(self).count()), bytes@) is None,
            },
    {
        let nonce = self.next_nonce();
        match aes256gcm_decrypt(&self.key, &nonce, bytes) {
            Ok(p) => Ok(p),
            Err(_) => Err(CryptoError),
        }
    }

    /// Decrypts `bytes` with the next nonce into a string; fails when the
    /// decryption fails or the plaintext is not UTF-8.
    pub fn decrypt_string(&mut self, bytes: Vec<u8>) -> (r: Result<String, CryptoError>)
        requires
            old(self).count() < u64::MAX,
        ensures
            final(self).count() == old(self).count() + 1,
            final(self).key() == old(self).key(),
            match r {
                Ok(s) => exists|p: Seq<u8>|
                    aes256gcm_open(old(self).key(), nonce_for(old(self).count()), bytes@) == Some(p)
                        && vstd::utf8::encode_utf8(s@) == p,
                Err(_) => match aes256gcm_open(old(self).key(), nonce_for(old(self).count()), bytes@) {
                    Some(p) => !vstd::utf8::valid_utf8(p),
                    None => true,
                },
            },
    {
        let plaintext = match self.decrypt_bytes(bytes.as_slice()) {
            Ok(p) => p,
            Err(e) => {
                return Err(e);
            },
        };
        match utf8_str(plaintext.as_slice()) {
            Some(s) => {
                let owned = s.to_owned();
                assert(owned@ == s@);
                Ok(owned)
            },
            None => Err(CryptoError),
        }
    }
}

// Framing

/// The two bytes of `n` in big-endian order.
pub open spec fn u16_be(n: nat) -> Seq<u8> {
    seq![(n / 256) as u8, (n % 256) as u8]
}

/// `data` prefixed by its length as a big-endian `u16`.
pub open spec fn frame(data: Seq<u8>) -> Seq<u8> {
    u16_be(data.len()) + data
}

/// The frames of `chunks`, one after the other.
pub open spec fn frames(chunks: Seq<Seq<u8>>) -> Seq<u8>
    decreases chunks.len(),
{
    if chunks.len() == 0 {
        Seq::<u8>::empty()
    } else {
        frame(chunks[0]) + frames(chunks.drop_first())
    }
}

/// The body of an encrypted upload after its two headers: the frames of
/// its segments, then two zero bytes.
pub open spec fn framed_body(chunks: Seq<Seq<u8>>) -> Seq<u8> {
    frames(chunks) + seq![0u8, 0u8]
}

/// The segments read back from `bytes`: frames up to a zero length prefix;
/// `None` when the bytes end first.
pub open spec fn parse_frames(bytes: Seq<u8>) -> Option<Seq<Seq<u8>>>
    decreases bytes.len(),
{
    if bytes.len() < 2 {
        None
    } else {
        let n = bytes[0] as int * 256 + bytes[1] as int;
        if n == 0 {
            Some(Seq::<Seq<u8>>::empty())
        } else if 2 + n > bytes.len() {
            None
        } else {
            match parse_frames(bytes.skip(2 + n)) {
                Some(rest) => Some(seq![bytes.subrange(2, 2 + n)] + rest),
                None => None,
            }
        }
    }
}

/// Whether every chunk can be framed: non-empty (a zero length marks the
/// end) and no longer than a `u16` can count.
pub open spec fn frameable(chunks: Seq<Seq<u8>>) -> bool {
    forall|i: int| 0 <= i < chunks.len() ==> 1 <= #[trigger] chunks[i].len() <= 65535
}

/// Reading back the framed body of an upload gives its segments: the
/// framing of the segment reader undoes that of the segment writer.
#[verifier::spinoff_prover]
pub proof fn lemma_frames_roundtrip(chunks: Seq<Seq<u8>>)
    requires
        frameable(chunks),
    ensures
        parse_frames(framed_body(chunks)) == Some(chunks),
    decreases chunks.len(),
{
    let body = framed_body(chunks);
    if chunks.len() == 0 {
        assert(body =~= seq![0u8, 0u8]);
        assert(chunks =~= Seq::<Seq<u8>>::empty());
    } else {
        let c = chunks[0];
        let rest = chunks.drop_first();
        assert(frameable(rest)) by {
            assert forall|i: int| 0 <= i < rest.len() implies 1 <= #[trigger] rest[i].len() <= 65535 by {
                assert(rest[i] == chunks[i + 1]);
            }
        }
        lemma_frames_roundtrip(rest);
        let n = c.len() as int;
        assert(1 <= n <= 65535);
        assert(body =~= u16_be(c.len()) + c + framed_body(rest));
        assert(body[0] == (n / 256) as u8);
        assert(body[1] == (n % 256) as u8);
        assert(body[0] as int * 256 + body[1] as int == n);
        assert(body.skip(2 + n) =~= framed_body(rest));
        assert(body.subrange(2, 2 + n) =~= c);
        assert(seq![c] + rest =~= chunks);
    }
}

/// The ciphertexts of the segments `plains` under `key`, the first with
/// nonce number `first`, then counting up.
pub open spec fn seal_segments(key: Seq<u8>, first: nat, plains: Seq<Seq<u8>>) -> Seq<Seq<u8>>
    decreases plains.len(),
{
    if plains.len() == 0 {
        Seq::empty()
    } else {
        seq![aes256gcm_seal(key, nonce_for(first as u64), plains[0])] + seal_segments(
            key,
            first + 1,
            plains.drop_first(),
        )
    }
}

/// The plaintexts of the segments `cts` under `key`, the first with nonce
/// number `first`, then counting up; `None` where one does not decrypt.
pub open spec fn open_segments(key: Seq<u8>, first: nat, cts: Seq<Seq<u8>>) -> Option<Seq<Seq<u8>>>
    decreases cts.len(),
{
    if cts.len() == 0 {
        Some(Seq::empty())
    } else {
        match aes256gcm_open(key, nonce_for(first as u64), cts[0]) {
            None => None,
            Some(p) => match open_segments(key, first + 1, cts.drop_first()) {
                None => None,
                Some(rest) => Some(seq![p] + rest),
            },
        }
    }
}

/// What a download reads back of an encrypted upload is what was
/// uploaded: the framed body of segments sealed with counting nonces
/// parses back into those ciphertexts, which open, with the same nonces,
/// to the segments. It rests on each ciphertext opening to its plaintext,
/// which the encryption states of every ciphertext it returns.
pub proof fn lemma_segments_read_back(key: Seq<u8>, first: nat, plains: Seq<Seq<u8>>)
    requires
        first + plains.len() <= u64::MAX + 1,
        frameable(seal_segments(key, first, plains)),
        forall|i: int| #![trigger plains[i]] 0 <= i < plains.len() ==> aes256gcm_open(
            key,
            nonce_for((first + i) as u64),
            aes256gcm_seal(key, nonce_for((first + i) as u64), plains[i]),
        ) == Some(plains[i]),
    ensures
        parse_frames(framed_body(seal_segments(key, first, plains))) == Some(seal_segments(key, first, plains)),
        open_segments(key, first, seal_segments(key, first, plains)) == Some(plains),
    decreases plains.len(),
{
    lemma_frames_roundtrip(seal_segments(key, first, plains));
    lemma_open_sealed(key, first, plains);
}

proof fn lemma_open_sealed(key: Seq<u8>, first: nat, plains: Seq<Seq<u8>>)
    requires
        first + plains.len() <= u64::MAX + 1,
        forall|i: int| #![trigger plains[i]] 0 <= i < plains.len() ==> aes256gcm_open(
            key,
            nonce_for((first + i) as u64),
            aes256gcm_seal(key, nonce_for((first + i) as u64), plains[i]),
        ) == Some(plains[i]),
    ensures
        open_segments(key, first, seal_segments(key, first, plains)) == Some(plains),
    decreases plains.len(),
{
    if plains.len() > 0 {
        let rest = plains.drop_first();
        assert forall|i: int| #![trigger rest[i]] 0 <= i < rest.len() implies aes256gcm_open(
            key,
            nonce_for((first + 1 + i) as u64),
            aes256gcm_seal(key, nonce_for((first + 1 + i) as u64), rest[i]),
        ) == Some(rest[i]) by {
            assert(rest[i] == plains[i + 1]);
            assert(first + (i + 1) == first + 1 + i);
        }
        lemma_open_sealed(key, first + 1, rest);
        let cts = seal_segments(key, first, plains);
        assert(plains[0] == plains[0]);
        assert(cts[0] == aes256gcm_seal(key, nonce_for(first as u64), plains[0]));
        assert(cts.drop_first() =~= seal_segments(key, first + 1, rest));
        assert(seq![plains[0]] + rest =~= plains);
    } else {
        assert(plains =~= Seq::<Seq<u8>>::empty());
    }
}

/// Sealing one more plaintext adds its ciphertext, under the next nonce,
/// at the end.
proof fn lemma_seal_segments_push(key: Seq<u8>, first: nat, plains: Seq<Seq<u8>>, p: Seq<u8>)
    ensures
        seal_segments(key, first, plains.push(p)) == seal_segments(key, first, plains).push(
            aes256gcm_seal(key, nonce_for((first + plains.len()) as u64), p),
        ),
    decreases plains.len(),
{
    let ps = plains.push(p);
    let c = aes256gcm_seal(key, nonce_for((first + plains.len()) as u64), p);
    assert(ps.len() > 0);
    assert(seal_segments(key, first, ps) == seq![aes256gcm_seal(key, nonce_for(first as u64), ps[0])]
        + seal_segments(key, first + 1, ps.drop_first()));
    if plains.len() == 0 {
        assert(ps.drop_first() =~= Seq::<Seq<u8>>::empty());
        assert(seal_segments(key, first + 1, Seq::<Seq<u8>>::empty()) == Seq::<Seq<u8>>::empty());
        assert(ps[0] == p);
        assert(seal_segments(key, first, plains) == Seq::<Seq<u8>>::empty());
        assert(seq![c] + Seq::<Seq<u8>>::empty() =~= Seq::<Seq<u8>>::empty().push(c));
    } else {
        let rest = plains.drop_first();
        assert(ps.drop_first() =~= rest.push(p));
        assert(ps[0] == plains[0]);
        lemma_seal_segments_push(key, first + 1, rest, p);
        assert(first + 1 + rest.len() == first + plains.len());
        let h = seq![aes256gcm_seal(key, nonce_for(first as u64), plains[0])];
        assert(seal_segments(key, first, plains) == h + seal_segments(key, first + 1, rest));
        assert(h + seal_segments(key, first + 1, rest).push(c) =~= (h + seal_segments(key, first + 1, rest)).push(c));
    }
}

/// Framing one more chunk adds its frame at the end.
proof fn lemma_frames_push(chunks: Seq<Seq<u8>>, c: Seq<u8>)
    ensures
        frames(chunks.push(c)) == frames(chunks) + frame(c),
    decreases chunks.len(),
{
    let cs = chunks.push(c);
    assert(cs.len() > 0);
    assert(frames(cs) == frame(cs[0]) + frames(cs.drop_first()));
    if chunks.len() == 0 {
        assert(cs.drop_first() =~= Seq::<Seq<u8>>::empty());
        assert(frames(Seq::<Seq<u8>>::empty()) == Seq::<u8>::empty());
        assert(cs[0] == c);
        assert(frames(chunks) == Seq::<u8>::empty());
        assert(frame(c) + Seq::<u8>::empty() =~= Seq::<u8>::empty() + frame(c));
    } else {
        let rest = chunks.drop_first();
        assert(cs.drop_first() =~= rest.push(c));
        assert(cs[0] == chunks[0]);
        lemma_frames_push(rest, c);
        assert(frames(chunks) == frame(chunks[0]) + frames(rest));
        assert(frame(chunks[0]) + (frames(rest) + frame(c)) =~= (frame(chunks[0]) + frames(rest)) + frame(c));
    }
}

/// Whether the ciphertext of `p` under `key` and the nonce numbered `n`
/// opens back to `p` and can be framed.
pub open spec fn segment_sealed_ok(key: Seq<u8>, n: u64, p: Seq<u8>) -> bool {
    &&& aes256gcm_open(key, nonce_for(n), aes256gcm_seal(key, nonce_for(n), p)) == Some(p)
    &&& 1 <= aes256gcm_seal(key, nonce_for(n), p).len() <= 65535
}

/// Whether each of `plains`, sealed with nonces counting up from `first`,
/// opens back to itself and can be framed.
pub open spec fn sealed_ok(key: Seq<u8>, first: nat, plains: Seq<Seq<u8>>) -> bool {
    forall|i: int| #![trigger plains[i]] 0 <= i < plains.len() ==> segment_sealed_ok(key, (first + i) as u64, plains[i])
}

/// The ciphertexts sealed with counting nonces, one by one.
proof fn lemma_seal_segments_index(key: Seq<u8>, first: nat, plains: Seq<Seq<u8>>)
    ensures
        seal_segments(key, first, plains).len() == plains.len(),
        forall|i: int| #![trigger plains[i]] 0 <= i < plains.len() ==> seal_segments(key, first, plains)[i]
            == aes256gcm_seal(key, nonce_for((first + i) as u64), plains[i]),
    decreases plains.len(),
{
    if plains.len() > 0 {
        let rest = plains.drop_first();
        lemma_seal_segments_index(key, first + 1, rest);
        let xs = seal_segments(key, first, plains);
        assert forall|i: int| #![trigger plains[i]] 0 <= i < plains.len() implies xs[i]
            == aes256gcm_seal(key, nonce_for((first + i) as u64), plains[i]) by {
            if i > 0 {
                assert(rest[i - 1] == plains[i]);
                assert(first + 1 + (i - 1) == first + i);
            }
        }
    }
}

/// The byte strings of `segs`, one after the other.
pub open spec fn concat(segs: Seq<Seq<u8>>) -> Seq<u8>
    decreases segs.len(),
{
    if segs.len() == 0 {
        Seq::empty()
    } else {
        segs[0] + concat(segs.drop_first())
    }
}

proof fn lemma_concat_push(segs: Seq<Seq<u8>>, p: Seq<u8>)
    ensures
        concat(segs.push(p)) == concat(segs) + p,
    decreases segs.len(),
{
    let ps = segs.push(p);
    assert(concat(ps) == ps[0] + concat(ps.drop_first()));
    if segs.len() == 0 {
        assert(ps.drop_first() =~= Seq::<Seq<u8>>::empty());
        assert(concat(Seq::<Seq<u8>>::empty()) == Seq::<u8>::empty());
        assert(ps[0] == p);
        assert(concat(segs) == Seq::<u8>::empty());
        assert(p + Seq::<u8>::empty() =~= Seq::<u8>::empty() + p);
    } else {
        let rest = segs.drop_first();
        assert(ps.drop_first() =~= rest.push(p));
        assert(ps[0] == segs[0]);
        lemma_concat_push(rest, p);
        assert(concat(segs) == segs[0] + concat(rest));
        assert(segs[0] + (concat(rest) + p) =~= (segs[0] + concat(rest)) + p);
    }
}

/// Opening one more ciphertext, under the next nonce, adds its plaintext
/// at the end.
proof fn lemma_open_segments_push(key: Seq<u8>, first: nat, cts: Seq<Seq<u8>>, c: Seq<u8>)
    ensures
        open_segments(key, first, cts.push(c)) == match open_segments(key, first, cts) {
            None => None,
            Some(ps) => match aes256gcm_open(key, nonce_for((first + cts.len()) as u64), c) {
                None => None,
                Some(p) => Some(ps.push(p)),
            },
        },
    decreases cts.len(),
{
    let cs = cts.push(c);
    if cts.len() == 0 {
        assert(cs.drop_first() =~= Seq::<Seq<u8>>::empty());
        assert(cs[0] == c);
        assert(open_segments(key, first + 1, Seq::<Seq<u8>>::empty()) == Some(Seq::<Seq<u8>>::empty()));
        assert(open_segments(key, first, cts) == Some(Seq::<Seq<u8>>::empty()));
        if let Some(p) = aes256gcm_open(key, nonce_for(first as u64), c) {
            assert(seq![p] + Seq::<Seq<u8>>::empty() =~= Seq::<Seq<u8>>::empty().push(p));
        }
    } else {
        let rest = cts.drop_first();
        assert(cs.drop_first() =~= rest.push(c));
        assert(cs[0] == cts[0]);
        lemma_open_segments_push(key, first + 1, rest, c);
        assert(first + 1 + rest.len() == first + cts.len());
        if let Some(h) = aes256gcm_open(key, nonce_for(first as u64), cts[0]) {
            if let Some(rs) = open_segments(key, first + 1, rest) {
                if let Some(p) = aes256gcm_open(key, nonce_for((first + cts.len()) as u64), c) {
                    assert(seq![h] + rs.push(p) =~= (seq![h] + rs).push(p));
                }
            }
        }
    }
}

/// `data` prefixed by its length as a big-endian `u16`; `ValueTooLarge`
/// when it is longer than `max_length`.
pub fn encode_header(data: &[u8], max_length: usize) -> (r: Result<Vec<u8>, WriterError>)
    requires
        max_length <= 65535,
    ensures
        match r {
            Ok(v) => data@.len() <= max_length && v@ == frame(data@),
            Err(e) => data@.len() > max_length && e is ValueTooLarge,
        },
{
    if data.len() > max_length {
        return Err(WriterError::ValueTooLarge);
    }
    let n = data.len() as u16;
    let mut v: Vec<u8> = Vec::with_capacity(data.len() + SIZE_PREFIX_LEN);
    assert((n >> 8u16) as int == n as int / 256) by (bit_vector);
    assert((n as u8) as int == n as int % 256) by (bit_vector);
    v.push((n >> 8u16) as u8);
    v.push(n as u8);
    let mut i: usize = 0;
    while i < data.len()
        invariant
            i <= data@.len(),
            data@.len() == n,
            v@ == u16_be(n as nat) + data@.take(i as int),
        decreases data@.len() - i,
    {
        v.push(data[i]);
        assert(data@.take(i + 1) =~= data@.take(i as int).push(data@[i as int]));
        i += 1;
    }
    assert(data@.take(i as int) =~= data@);
    Ok(v)
}

/// The length stored in a big-endian `u16` size prefix.
pub fn decode_size_prefix(b0: u8, b1: u8) -> (n: usize)
    ensures
        n == b0 as int * 256 + b1 as int,
{
    b0 as usize * 256 + b1 as usize
}

/// Whether the file name and mime type (as bytes) fit in their headers
/// once encrypted: their ciphertexts, 16 bytes longer, within
/// `MAX_FILE_NAME_CIPHERTEXT_SIZE` and `MAX_MIME_TYPE_CIPHERTEXT_SIZE`.
pub open spec fn metadata_fits(name: Seq<u8>, mime: Seq<u8>) -> bool {
    name.len() + 16 <= MAX_FILE_NAME_CIPHERTEXT_SIZE && mime.len() + 16 <= MAX_MIME_TYPE_CIPHERTEXT_SIZE
}

/// The error of encrypting headers that do not fit: the name is
/// encrypted first, and the encryption itself refuses more than 2^36
/// bytes.
pub open spec fn metadata_error(name: Seq<u8>, mime: Seq<u8>) -> WriterError {
    if name.len() > 0x10_0000_0000 {
        WriterError::Encryption
    } else if name.len() + 16 > MAX_FILE_NAME_CIPHERTEXT_SIZE {
        WriterError::ValueTooLarge
    } else if mime.len() > 0x10_0000_0000 {
        WriterError::Encryption
    } else {
        WriterError::ValueTooLarge
    }
}

/// Encrypts an upload's file name and mime type (nonces 0 and 1 when it is
/// the first use of `crypto`) and frames them as the two headers of the
/// encrypted upload.
pub fn encrypt_metadata(crypto: &mut Crypto, name: String, mime: String) -> (r: Result<Vec<u8>, WriterError>)
    requires
        old(crypto).count() < u64::MAX - 1,
    ensures
        final(crypto).key() == old(crypto).key(),
        final(crypto).count() <= old(crypto).count() + 2,
        r matches Ok(v) ==> final(crypto).count() == old(crypto).count() + 2 && v@ == frame(
            aes256gcm_seal(old(crypto).key(), nonce_for(old(crypto).count()), vstd::utf8::encode_utf8(name@)),
        ) + frame(
            aes256gcm_seal(old(crypto).key(), nonce_for((old(crypto).count() + 1) as u64), vstd::utf8::encode_utf8(mime@)),
        ),
        r matches Ok(v) ==> sealed_ok(old(crypto).key(), old(crypto).count() as nat, seq![
            vstd::utf8::encode_utf8(name@),
            vstd::utf8::encode_utf8(mime@),
        ]),
        r is Ok <==> metadata_fits(vstd::utf8::encode_utf8(name@), vstd::utf8::encode_utf8(mime@)),
        r matches Err(e) ==> e == metadata_error(vstd::utf8::encode_utf8(name@), vstd::utf8::encode_utf8(mime@)),
{
    let ghost k = crypto.key();
    let ghost n = crypto.count();
    let ghost ps = seq![vstd::utf8::encode_utf8(name@), vstd::utf8::encode_utf8(mime@)];
    let name_cipher = match crypto.encrypt_string(name) {
        Ok(c) => c,
        Err(_) => {
            return Err(WriterError::Encryption);
        },
    };
    let mut out = match encode_header(name_cipher.as_slice(), MAX_FILE_NAME_CIPHERTEXT_SIZE) {
        Ok(h) => h,
        Err(e) => {
            return Err(e);
        },
    };
    let mime_cipher = match crypto.encrypt_string(mime) {
        Ok(c) => c,
        Err(_) => {
            return Err(WriterError::Encryption);
        },
    };
    let mut second = match encode_header(mime_cipher.as_slice(), MAX_MIME_TYPE_CIPHERTEXT_SIZE) {
        Ok(h) => h,
        Err(e) => {
            return Err(e);
        },
    };
    out.append(&mut second);
    proof {
        assert forall|i: int| #![trigger ps[i]] 0 <= i < ps.len() implies segment_sealed_ok(k, (n + i) as u64, ps[i]) by {
            if i == 0 {
                assert(n + 0 == n);
            } else {
                assert(i == 1);
            }
        }
    }
    Ok(out)
}

// Segment writer

/// The encrypting side of the segment framing: plaintext is gathered up to
/// `FORM_READ_BUFFER_SIZE` bytes, then encrypted with the next nonce and
/// framed as one segment, which is handed out until all of it is written.
pub struct SegmentWriter {
    crypto: Crypto,
    plaintext: Vec<u8>,
    segment: Vec<u8>,
    segment_write_start: usize,
    /// The bytes handed out so far (headers, segments written out, end).
    emitted: Ghost<Seq<u8>>,
    /// The counter of the first nonce this writer used.
    first: Ghost<nat>,
    /// The plaintexts encrypted so far, in order (headers included).
    sealed: Ghost<Seq<Seq<u8>>>,
    /// Whether encrypting the headers failed, leaving the stream unusable.
    broken: Ghost<bool>,
}

impl SegmentWriter {
    pub closed spec fn key(&self) -> Seq<u8> {
        self.crypto.key()
    }

    pub closed spec fn count(&self) -> u64 {
        self.crypto.count()
    }

    /// The plaintext gathered for the next segment.
    pub closed spec fn plaintext(&self) -> Seq<u8> {
        self.plaintext@
    }

    /// The part of the current segment not yet written out.
    pub closed spec fn pending_bytes(&self) -> Seq<u8> {
        self.segment@.skip(self.segment_write_start as int)
    }

    /// Whether a segment is being written out.
    pub closed spec fn is_sealed(&self) -> bool {
        self.segment@.len() > 0
    }

    /// The bytes handed out so far: the headers returned, the parts of
    /// segments passed to `advance`, and the end marker.
    pub closed spec fn emitted(&self) -> Seq<u8> {
        self.emitted@
    }

    /// The counter of the first nonce this writer used.
    pub closed spec fn first(&self) -> nat {
        self.first@
    }

    /// The plaintexts encrypted so far, in order: the file name and mime
    /// type, then the segments.
    pub closed spec fn sealed(&self) -> Seq<Seq<u8>> {
        self.sealed@
    }

    /// Whether encrypting the headers failed.
    pub closed spec fn is_broken(&self) -> bool {
        self.broken@
    }

    pub closed spec fn wf(&self) -> bool {
        &&& self.plaintext@.len() <= FORM_READ_BUFFER_SIZE
        &&& self.segment_write_start <= self.segment@.len()
        &&& self.segment@.len() > 0 ==> self.segment_write_start < self.segment@.len()
        &&& !self.broken@ ==> {
            &&& self.crypto.count() == self.first@ + self.sealed@.len()
            &&& self.emitted@ + self.segment@.skip(self.segment_write_start as int) == frames(
                seal_segments(self.crypto.key(), self.first@, self.sealed@),
            )
            &&& sealed_ok(self.crypto.key(), self.first@, self.sealed@)
        }
    }

    /// A writer that encrypts with `crypto`.
    pub fn new(crypto: Crypto) -> (r: Self)
        ensures
            r.wf(),
            r.key() == crypto.key(),
            r.count() == crypto.count(),
            r.plaintext() == Seq::<u8>::empty(),
            !r.is_sealed(),
            r.emitted() == Seq::<u8>::empty(),
            r.first() == crypto.count(),
            r.sealed() == Seq::<Seq<u8>>::empty(),
            !r.is_broken(),
    {
        let ghost first = crypto.count() as nat;
        let w = SegmentWriter {
            crypto,
            plaintext: Vec::new(),
            segment: Vec::new(),
            segment_write_start: 0,
            emitted: Ghost(Seq::empty()),
            first: Ghost(first),
            sealed: Ghost(Seq::empty()),
            broken: Ghost(false),
        };
        assert(w.segment@.skip(0) =~= Seq::<u8>::empty());
        assert(Seq::<u8>::empty() + Seq::<u8>::empty() =~= Seq::<u8>::empty());
        w
    }

    /// Encrypts and frames the file name and the mime type (see
    /// `encrypt_metadata`), which the caller writes out at once. No
    /// segment may be half written then.
    pub fn write_metadata(&mut self, name: String, mime: String) -> (r: Result<Vec<u8>, WriterError>)
        requires
            old(self).wf(),
            !old(self).is_sealed(),
            old(self).count() < u64::MAX - 1,
        ensures
            final(self).wf(),
            final(self).key() == old(self).key(),
            final(self).plaintext() == old(self).plaintext(),
            final(self).is_sealed() == old(self).is_sealed(),
            final(self).pending_bytes() == old(self).pending_bytes(),
            final(self).count() <= old(self).count() + 2,
            final(self).first() == old(self).first(),
            r matches Ok(v) ==> final(self).count() == old(self).count() + 2 && v@ == frame(
                aes256gcm_seal(old(self).key(), nonce_for(old(self).count()), vstd::utf8::encode_utf8(name@)),
            ) + frame(
                aes256gcm_seal(
                    old(self).key(),
                    nonce_for((old(self).count() + 1) as u64),
                    vstd::utf8::encode_utf8(mime@),
                ),
            ),
            r matches Ok(v) ==> final(self).emitted() == old(self).emitted() + v@
                && final(self).sealed() == old(self).sealed().push(vstd::utf8::encode_utf8(name@)).push(
                vstd::utf8::encode_utf8(mime@),
            ) && final(self).is_broken() == old(self).is_broken(),
            r is Err ==> final(self).is_broken() && final(self).emitted() == old(self).emitted(),
            r is Ok <==> metadata_fits(vstd::utf8::encode_utf8(name@), vstd::utf8::encode_utf8(mime@)),
            r matches Err(e) ==> e == metadata_error(vstd::utf8::encode_utf8(name@), vstd::utf8::encode_utf8(mime@)),
    {
        let ghost old_sealed = self.sealed@;
        let ghost k = self.crypto.key();
        let ghost n = self.crypto.count();
        let r = encrypt_metadata(&mut self.crypto, name, mime);
        match &r {
            Ok(v) => {
                proof {
                    let a = vstd::utf8::encode_utf8(name@);
                    let b = vstd::utf8::encode_utf8(mime@);
                    let f = self.first@;
                    if !self.broken@ {
                        lemma_seal_segments_push(k, f, old_sealed, a);
                        lemma_seal_segments_push(k, f, old_sealed.push(a), b);
                        let cs = seal_segments(k, f, old_sealed);
                        let ca = aes256gcm_seal(k, nonce_for(n), a);
                        let cb = aes256gcm_seal(k, nonce_for((n + 1) as u64), b);
                        assert(f + old_sealed.len() == n);
                        assert(f + old_sealed.push(a).len() == n + 1);
                        lemma_frames_push(cs, ca);
                        lemma_frames_push(cs.push(ca), cb);
                        assert(self.segment@.skip(self.segment_write_start as int) =~= Seq::<u8>::empty());
                        assert(self.emitted@ + Seq::<u8>::empty() =~= self.emitted@);
                        assert((self.emitted@ + v@) + Seq::<u8>::empty() =~= frames(cs) + frame(ca) + frame(cb));
                        let ns = old_sealed.push(a).push(b);
                        let two = seq![a, b];
                        assert(sealed_ok(k, n as nat, two));
                        assert forall|i: int| #![trigger ns[i]] 0 <= i < ns.len() implies segment_sealed_ok(k, (f + i) as u64, ns[i]) by {
                            if i < old_sealed.len() {
                                assert(ns[i] == old_sealed[i]);
                            } else if i == old_sealed.len() {
                                assert(ns[i] == two[0]);
                                assert(f + i == n + 0);
                            } else {
                                assert(ns[i] == two[1]);
                                assert(f + i == n + 1);
                            }
                        }
                    }
                    self.emitted@ = self.emitted@ + v@;
                    self.sealed@ = old_sealed.push(a).push(b);
                }
            },
            Err(_) => {
                proof {
                    self.broken@ = true;
                }
            },
        }
        r
    }

    /// Whether the plaintext buffer is full, so that a segment must be
    /// written before more plaintext is accepted.
    pub fn is_full(&self) -> (r: bool)
        ensures
            r == (self.plaintext().len() >= FORM_READ_BUFFER_SIZE),
    {
        self.plaintext.len() >= FORM_READ_BUFFER_SIZE
    }

    /// Whether plaintext is waiting to be encrypted.
    pub fn has_plaintext(&self) -> (r: bool)
        ensures
            r == (self.plaintext().len() > 0),
    {
        self.plaintext.len() > 0
    }

    /// Takes as much of `buf` as fits in the plaintext buffer; returns how
    /// many bytes were taken.
    pub fn accept(&mut self, buf: &[u8]) -> (taken: usize)
        requires
            old(self).wf(),
            !old(self).is_sealed(),
        ensures
            final(self).wf(),
            !final(self).is_sealed(),
            taken == if buf@.len() < FORM_READ_BUFFER_SIZE - old(self).plaintext().len() {
                buf@.len() as int
            } else {
                FORM_READ_BUFFER_SIZE - old(self).plaintext().len()
            },
            final(self).plaintext() == old(self).plaintext() + buf@.take(taken as int),
            final(self).key() == old(self).key(),
            final(self).count() == old(self).count(),
    {
        let room = FORM_READ_BUFFER_SIZE - self.plaintext.len();
        let take = if buf.len() < room {
            buf.len()
        } else {
            room
        };
        let taken = &buf[0..take];
        assert(taken@ =~= buf@.take(take as int));
        append_bytes(&mut self.plaintext, taken);
        take
    }

    /// Encrypts the gathered plaintext with the next nonce and frames it as
    /// the segment to write, unless a segment is already being written.
    pub fn seal(&mut self) -> (r: Result<(), WriterError>)
        requires
            old(self).wf(),
            old(self).count() < u64::MAX,
        ensures
            final(self).wf(),
            final(self).key() == old(self).key(),
            old(self).is_sealed() ==> r is Ok && final(self).count() == old(self).count()
                && final(self).pending_bytes() == old(self).pending_bytes()
                && final(self).plaintext() == old(self).plaintext() && final(self).is_sealed(),
            !old(self).is_sealed() ==> {
                &&& r is Ok
                &&& final(self).count() == old(self).count() + 1
                &&& final(self).pending_bytes() == frame(
                    aes256gcm_seal(old(self).key(), nonce_for(old(self).count()), old(self).plaintext()),
                )
                &&& aes256gcm_open(
                    old(self).key(),
                    nonce_for(old(self).count()),
                    aes256gcm_seal(old(self).key(), nonce_for(old(self).count()), old(self).plaintext()),
                ) == Some(old(self).plaintext())
                &&& final(self).plaintext() == old(self).plaintext()
                &&& final(self).is_sealed()
                &&& final(self).sealed() == old(self).sealed().push(old(self).plaintext())
            },
            old(self).is_sealed() ==> final(self).sealed() == old(self).sealed(),
            final(self).emitted() == old(self).emitted(),
            final(self).first() == old(self).first(),
            final(self).is_broken() == old(self).is_broken(),
    {
        if self.segment.len() > 0 {
            return Ok(());
        }
        let ghost k = self.crypto.key();
        let ghost n = self.crypto.count();
        let ghost old_sealed = self.sealed@;
        let ghost p = self.plaintext@;
        let ciphertext = match self.crypto.encrypt_bytes(self.plaintext.as_slice()) {
            Ok(c) => c,
            Err(_) => {
                return Err(WriterError::Encryption);
            },
        };
        if ciphertext.len() > MAX_CHUNK_SIZE {
            return Err(WriterError::ValueTooLarge);
        }
        let framed = match encode_header(ciphertext.as_slice(), MAX_CHUNK_SIZE) {
            Ok(f) => f,
            Err(e) => {
                return Err(e);
            },
        };
        self.segment = framed;
        self.segment_write_start = 0;
        assert(self.segment@.skip(0) =~= self.segment@);
        proof {
            let f = self.first@;
            if !self.broken@ {
                lemma_seal_segments_push(k, f, old_sealed, p);
                assert(f + old_sealed.len() == n);
                lemma_frames_push(seal_segments(k, f, old_sealed), aes256gcm_seal(k, nonce_for(n), p));
                assert(old(self).segment@.skip(old(self).segment_write_start as int) =~= Seq::<u8>::empty());
                assert(self.emitted@ + Seq::<u8>::empty() =~= self.emitted@);
                let ns = old_sealed.push(p);
                assert(segment_sealed_ok(k, n, p));
                assert forall|i: int| #![trigger ns[i]] 0 <= i < ns.len() implies segment_sealed_ok(k, (f + i) as u64, ns[i]) by {
                    if i < old_sealed.len() {
                        assert(ns[i] == old_sealed[i]);
                    } else {
                        assert(ns[i] == p);
                        assert(f + i == n);
                    }
                }
            }
            self.sealed@ = old_sealed.push(p);
        }
        Ok(())
    }

    /// The part of the current segment still to be written out.
    pub fn pending(&self) -> (r: &[u8])
        requires
            self.wf(),
        ensures
            r@ == self.pending_bytes(),
    {
        &self.segment[self.segment_write_start..self.segment.len()]
    }

    /// Records that `n` more bytes of the segment were written out; once all
    /// of it is, the writer is ready for new plaintext.
    pub fn advance(&mut self, n: usize)
        requires
            old(self).wf(),
            n <= old(self).pending_bytes().len(),
        ensures
            final(self).wf(),
            final(self).key() == old(self).key(),
            final(self).count() == old(self).count(),
            n == old(self).pending_bytes().len() ==> !final(self).is_sealed() && final(self).plaintext() == Seq::<u8>::empty(),
            n < old(self).pending_bytes().len() ==> final(self).is_sealed() && final(self).pending_bytes() == old(self).pending_bytes().skip(n as int) && final(self).plaintext()
                == old(self).plaintext(),
            final(self).emitted() == old(self).emitted() + old(self).pending_bytes().take(n as int),
            final(self).sealed() == old(self).sealed(),
            final(self).first() == old(self).first(),
            final(self).is_broken() == old(self).is_broken(),
    {
        assert(n <= self.segment.len() - self.segment_write_start);
        let ghost pend = self.segment@.skip(self.segment_write_start as int);
        proof {
            self.emitted@ = self.emitted@ + pend.take(n as int);
            assert(pend.take(n as int) + pend.skip(n as int) =~= pend);
        }
        self.segment_write_start += n;
        if self.segment_write_start == self.segment.len() {
            self.segment_write_start = 0;
            self.plaintext.clear();
            self.segment.clear();
            assert(pend.take(n as int) =~= pend);
            assert(self.segment@.skip(0) =~= Seq::<u8>::empty());
            assert(self.emitted@ + Seq::<u8>::empty() =~= self.emitted@);
            assert(old(self).emitted@ + pend.take(n as int) =~= old(self).emitted@ + pend);
        } else {
            assert(self.segment@.skip(self.segment_write_start as int) =~= old(self).segment@.skip(
                old(self).segment_write_start as int,
            ).skip(n as int));
            assert((old(self).emitted@ + pend.take(n as int)) + pend.skip(n as int) =~= old(self).emitted@ + pend);
        }
    }
}

impl SegmentWriter {
    /// The two zero bytes that end the stream, to be written once the last
    /// plaintext is sealed and written out. With them, all that the writer
    /// handed out is the framed body of what it encrypted: the headers,
    /// then each segment, under nonces counting up from `first`.
    pub fn end(&self) -> (r: Vec<u8>)
        requires
            self.wf(),
        ensures
            r@ == seq![0u8, 0u8],
            !self.is_broken() && !self.is_sealed() ==> self.emitted() + r@ == framed_body(
                seal_segments(self.key(), self.first(), self.sealed()),
            ),
    {
        let r = end_marker();
        proof {
            if !self.broken@ && !self.is_sealed() {
                assert(self.segment@.skip(self.segment_write_start as int) =~= Seq::<u8>::empty());
                assert(self.emitted@ + Seq::<u8>::empty() =~= self.emitted@);
            }
        }
        r
    }
}

/// The two zero bytes that end the segments of an encrypted upload.
pub fn end_marker() -> (r: Vec<u8>)
    ensures
        r@ == seq![0u8, 0u8],
{
    let r = vec![0u8, 0u8];
    assert(r@ =~= seq![0u8, 0u8]);
    r
}

// Segment reader

/// Why reading an encrypted upload failed.
#[derive(Debug)]
pub enum SegmentError {
    /// A segment is longer than `MAX_CHUNK_SIZE`.
    ChunkTooLarge,
    /// A segment does not decrypt (wrong key, or altered ciphertext).
    Decryption,
}

/// The decrypting side of the segment framing: it is supplied the bytes of
/// the upload after its headers as they arrive, and hands out the plaintext
/// of each segment once the whole segment is in.
pub struct SegmentReader {
    crypto: Crypto,
    is_finished: bool,
    oversized: bool,
    size_buf: Vec<u8>,
    chunk_size: usize,
    ciphertext: Vec<u8>,
    decrypted: bool,
    plaintext: Vec<u8>,
    plaintext_read_start: usize,
    /// All bytes supplied so far.
    consumed: Ghost<Seq<u8>>,
    /// The ciphertexts of the segments read in full so far.
    segments: Ghost<Seq<Seq<u8>>>,
    /// The counter of the first nonce this reader used.
    first: Ghost<nat>,
    /// All plaintext handed out so far.
    handed: Ghost<Seq<u8>>,
    /// Whether a supply failed, leaving the reader unusable.
    broken: Ghost<bool>,
}

impl SegmentReader {
    /// All bytes supplied so far.
    pub closed spec fn consumed(&self) -> Seq<u8> {
        self.consumed@
    }

    /// The ciphertexts of the segments read in full so far.
    pub closed spec fn segments_read(&self) -> Seq<Seq<u8>> {
        self.segments@
    }

    /// The counter of the first nonce this reader used.
    pub closed spec fn first(&self) -> nat {
        self.first@
    }

    /// All plaintext handed out so far.
    pub closed spec fn handed(&self) -> Seq<u8> {
        self.handed@
    }

    /// Whether a supply failed.
    pub closed spec fn is_broken(&self) -> bool {
        self.broken@
    }

    /// What the reader has taken in and given out agrees with the stream
    /// format: the bytes consumed are the frames of the segments read,
    /// then the part of the next one; the plaintext handed out, then what
    /// is left of the current segment, is what those segments open to.
    pub closed spec fn stream_ok(&self) -> bool {
        let done = self.segments@;
        &&& self.crypto.count() == self.first@ + done.len()
        &&& forall|i: int| 0 <= i < done.len() ==> 1 <= #[trigger] done[i].len() <= MAX_CHUNK_SIZE
        &&& self.consumed@ == frames(done) + if self.decrypted {
            Seq::<u8>::empty()
        } else {
            self.size_buf@ + self.ciphertext@
        }
        &&& open_segments(self.crypto.key(), self.first@, done) is Some
        &&& self.handed@ + (if self.decrypted {
            self.plaintext@.skip(self.plaintext_read_start as int)
        } else {
            Seq::<u8>::empty()
        }) == concat(open_segments(self.crypto.key(), self.first@, done)->0)
    }

    pub closed spec fn key(&self) -> Seq<u8> {
        self.crypto.key()
    }

    pub closed spec fn count(&self) -> u64 {
        self.crypto.count()
    }

    /// Whether the end marker was read.
    pub closed spec fn finished(&self) -> bool {
        self.is_finished
    }

    /// Whether a size prefix larger than `MAX_CHUNK_SIZE` was read; the
    /// reader then fails for good.
    pub closed spec fn failed(&self) -> bool {
        self.oversized
    }

    /// The size prefix read so far of the current segment.
    pub closed spec fn size_bytes(&self) -> Seq<u8> {
        self.size_buf@
    }

    /// The ciphertext read so far of the current segment.
    pub closed spec fn ciphertext(&self) -> Seq<u8> {
        self.ciphertext@
    }

    /// Whether the current segment is decrypted and its plaintext is being
    /// handed out.
    pub closed spec fn has_plaintext(&self) -> bool {
        self.decrypted
    }

    /// The plaintext of the current segment not yet handed out.
    pub closed spec fn remaining(&self) -> Seq<u8> {
        self.plaintext@.skip(self.plaintext_read_start as int)
    }

    /// The length of the current segment, once its prefix is read.
    pub open spec fn segment_len(&self) -> int {
        self.size_bytes()[0] as int * 256 + self.size_bytes()[1] as int
    }

    /// The number of bytes the reader needs next: the rest of a size
    /// prefix or of a segment; none when finished or holding plaintext.
    pub open spec fn spec_needed(&self) -> int {
        if self.finished() || self.has_plaintext() || self.failed() {
            0
        } else if self.size_bytes().len() < 2 {
            2 - self.size_bytes().len()
        } else {
            self.segment_len() - self.ciphertext().len()
        }
    }

    pub closed spec fn wf(&self) -> bool {
        &&& self.size_buf@.len() <= 2
        &&& self.chunk_size <= MAX_CHUNK_SIZE
        &&& self.oversized ==> self.size_buf@.len() == 2 && self.segment_len() > MAX_CHUNK_SIZE
            && !self.is_finished && !self.decrypted
        &&& self.size_buf@.len() == 2 && !self.oversized ==> self.chunk_size == self.segment_len()
        &&& self.size_buf@.len() < 2 ==> self.ciphertext@.len() == 0 && !self.decrypted
            && !self.oversized
        &&& !self.is_finished && !self.decrypted && !self.oversized && self.size_buf@.len() == 2
            ==> 0 < self.chunk_size && self.ciphertext@.len() <= self.chunk_size
        &&& self.decrypted ==> self.plaintext_read_start <= self.plaintext@.len()
        &&& !self.decrypted ==> self.plaintext@.len() == 0 && self.plaintext_read_start == 0
        &&& self.is_finished ==> !self.decrypted
        &&& self.is_finished ==> self.size_buf@.len() == 2 && self.segment_len() == 0
            && self.ciphertext@.len() == 0
        &&& !self.broken@ ==> self.stream_ok()
    }

    /// A reader that decrypts with `crypto`, at the start of the segments.
    pub fn new(crypto: Crypto) -> (r: Self)
        ensures
            r.wf(),
            r.key() == crypto.key(),
            r.count() == crypto.count(),
            !r.finished(),
            !r.failed(),
            !r.has_plaintext(),
            r.size_bytes() == Seq::<u8>::empty(),
            r.spec_needed() == 2,
            r.consumed() == Seq::<u8>::empty(),
            r.handed() == Seq::<u8>::empty(),
            r.first() == crypto.count(),
            r.segments_read() == Seq::<Seq<u8>>::empty(),
            !r.is_broken(),
    {
        let ghost first = crypto.count() as nat;
        let r = SegmentReader {
            crypto,
            is_finished: false,
            oversized: false,
            size_buf: Vec::new(),
            chunk_size: 0,
            ciphertext: Vec::new(),
            decrypted: false,
            plaintext: Vec::new(),
            plaintext_read_start: 0,
            consumed: Ghost(Seq::empty()),
            segments: Ghost(Seq::empty()),
            first: Ghost(first),
            handed: Ghost(Seq::empty()),
            broken: Ghost(false),
        };
        assert(r.size_buf@ + r.ciphertext@ =~= Seq::<u8>::empty());
        assert(Seq::<u8>::empty() + Seq::<u8>::empty() =~= Seq::<u8>::empty());
        r
    }

    /// Whether the end marker was read.
    pub fn is_finished(&self) -> (r: bool)
        ensures
            r == self.finished(),
    {
        self.is_finished
    }

    /// Whether a size prefix larger than `MAX_CHUNK_SIZE` was read.
    pub fn is_failed(&self) -> (r: bool)
        ensures
            r == self.failed(),
    {
        self.oversized
    }

    /// The number of bytes needed next (see `spec_needed`).
    pub fn needed(&self) -> (n: usize)
        requires
            self.wf(),
        ensures
            n == self.spec_needed(),
    {
        if self.is_finished || self.decrypted || self.oversized {
            0
        } else if self.size_buf.len() < 2 {
            2 - self.size_buf.len()
        } else {
            self.chunk_size - self.ciphertext.len()
        }
    }

    /// Supplies the next bytes of the upload. A complete size prefix of zero
    /// ends the segments; a larger one than `MAX_CHUNK_SIZE` is an error; a
    /// complete segment is decrypted with the next nonce.
    pub fn supply(&mut self, data: &[u8]) -> (r: Result<(), SegmentError>)
        requires
            old(self).wf(),
            1 <= data@.len() <= old(self).spec_needed(),
            old(self).count() < u64::MAX,
        ensures
            final(self).wf(),
            final(self).key() == old(self).key(),
            final(self).consumed() == old(self).consumed() + data@,
            final(self).handed() == old(self).handed(),
            final(self).first() == old(self).first(),
            r is Ok ==> final(self).is_broken() == old(self).is_broken(),
            r is Err ==> final(self).is_broken(),
            old(self).size_bytes().len() < 2 ==> {
                let size = old(self).size_bytes() + data@;
                &&& final(self).size_bytes() == size
                &&& final(self).count() == old(self).count()
                &&& !final(self).has_plaintext()
                &&& size.len() == 2 ==> {
                    let n = size[0] as int * 256 + size[1] as int;
                    &&& (r is Err <==> n > MAX_CHUNK_SIZE)
                    &&& r is Err ==> (r matches Err(SegmentError::ChunkTooLarge))
                    &&& final(self).failed() == (n > MAX_CHUNK_SIZE)
                    &&& final(self).finished() == (n == 0)
                }
                &&& size.len() < 2 ==> r is Ok && !final(self).finished() && !final(self).failed()
            },
            old(self).size_bytes().len() == 2 ==> {
                let c = old(self).ciphertext() + data@;
                &&& !final(self).finished()
                &&& !final(self).failed()
                &&& final(self).size_bytes() == old(self).size_bytes()
                &&& c.len() < old(self).segment_len() ==> r is Ok && final(self).ciphertext() == c
                    && !final(self).has_plaintext() && final(self).count() == old(self).count()
                &&& c.len() == old(self).segment_len() ==> {
                    &&& final(self).count() == old(self).count() + 1
                    &&& match aes256gcm_open(old(self).key(), nonce_for(old(self).count()), c) {
                        Some(p) => r is Ok && final(self).has_plaintext() && final(self).remaining()
                            == p,
                        None => (r matches Err(SegmentError::Decryption)),
                    }
                }
            },
    {
        let ghost done = self.segments@;
        let ghost k = self.crypto.key();
        let ghost n0 = self.crypto.count();
        proof {
            self.consumed@ = self.consumed@ + data@;
        }
        if self.size_buf.len() < 2 {
            append_bytes(&mut self.size_buf, data);
            proof {
                assert(old(self).ciphertext@ =~= Seq::<u8>::empty());
                assert(self.size_buf@ + self.ciphertext@ =~= old(self).size_buf@ + data@);
                assert(frames(done) + (old(self).size_buf@ + Seq::<u8>::empty()) + data@ =~= frames(done)
                    + (old(self).size_buf@ + data@));
            }
            if self.size_buf.len() == 2 {
                let n = decode_size_prefix(self.size_buf[0], self.size_buf[1]);
                if n > MAX_CHUNK_SIZE {
                    self.oversized = true;
                    proof {
                        self.broken@ = true;
                    }
                    return Err(SegmentError::ChunkTooLarge);
                }
                self.chunk_size = n;
                if n == 0 {
                    // A segment size of zero marks the end of the upload
                    self.is_finished = true;
                }
            }
            Ok(())
        } else {
            append_bytes(&mut self.ciphertext, data);
            proof {
                assert(frames(done) + (self.size_buf@ + old(self).ciphertext@) + data@ =~= frames(done)
                    + (self.size_buf@ + self.ciphertext@));
            }
            if self.ciphertext.len() == self.chunk_size {
                match self.crypto.decrypt_bytes(self.ciphertext.as_slice()) {
                    Ok(p) => {
                        self.plaintext = p;
                        self.plaintext_read_start = 0;
                        self.decrypted = true;
                        assert(self.plaintext@.skip(0) =~= self.plaintext@);
                        proof {
                            let c = self.ciphertext@;
                            if !self.broken@ {
                                let cl = c.len() as int;
                                let b0 = self.size_buf@[0];
                                let b1 = self.size_buf@[1];
                                assert(b0 as int * 256 + b1 as int == cl);
                                assert((cl / 256) as u8 == b0 && (cl % 256) as u8 == b1) by (nonlinear_arith)
                                    requires
                                        b0 as int * 256 + b1 as int == cl,
                                        0 <= b0 < 256,
                                        0 <= b1 < 256,
                                ;
                                assert(self.size_buf@ =~= u16_be(c.len()));
                                lemma_frames_push(done, c);
                                lemma_open_segments_push(k, self.first@, done, c);
                                assert(self.first@ + done.len() == n0);
                                let ps = open_segments(k, self.first@, done)->0;
                                lemma_concat_push(ps, p@);
                                assert(self.handed@ + Seq::<u8>::empty() =~= self.handed@);
                                let nd = done.push(c);
                                assert forall|i: int| 0 <= i < nd.len() implies 1 <= #[trigger] nd[i].len() <= MAX_CHUNK_SIZE by {
                                    if i < done.len() {
                                        assert(nd[i] == done[i]);
                                    }
                                }
                                assert(frames(nd) + Seq::<u8>::empty() =~= frames(done) + (self.size_buf@ + c));
                            }
                            self.segments@ = done.push(c);
                        }
                        Ok(())
                    },
                    Err(_) => {
                        proof {
                            self.broken@ = true;
                        }
                        Err(SegmentError::Decryption)
                    },
                }
            } else {
                Ok(())
            }
        }
    }

    /// Hands out up to `max` bytes of the current plaintext; once all of it
    /// is handed out, the reader moves on to the next segment.
    pub fn take(&mut self, max: usize) -> (out: Vec<u8>)
        requires
            old(self).wf(),
            old(self).has_plaintext(),
        ensures
            final(self).wf(),
            final(self).key() == old(self).key(),
            final(self).count() == old(self).count(),
            !final(self).finished(),
            out@ == old(self).remaining().take(
                if max < old(self).remaining().len() {
                    max as int
                } else {
                    old(self).remaining().len() as int
                },
            ),
            max < old(self).remaining().len() ==> final(self).has_plaintext() && final(self).remaining() == old(self).remaining().skip(max as int),
            max >= old(self).remaining().len() ==> !final(self).has_plaintext() && final(self).size_bytes() == Seq::<u8>::empty(),
            final(self).handed() == old(self).handed() + out@,
            final(self).consumed() == old(self).consumed(),
            final(self).segments_read() == old(self).segments_read(),
            final(self).first() == old(self).first(),
            final(self).is_broken() == old(self).is_broken(),
    {
        let remaining = self.plaintext.len() - self.plaintext_read_start;
        let n = if max < remaining {
            max
        } else {
            remaining
        };
        let mut out: Vec<u8> = Vec::with_capacity(n);
        let s = self.plaintext_read_start;
        let mut i: usize = 0;
        while i < n
            invariant
                s + n <= self.plaintext.len(),
                i <= n,
                out@ == self.plaintext@.subrange(s as int, s + i),
            decreases n - i,
        {
            out.push(self.plaintext[s + i]);
            assert(self.plaintext@.subrange(s as int, s + i + 1) =~= self.plaintext@.subrange(
                s as int,
                s + i,
            ).push(self.plaintext@[s + i]));
            i += 1;
        }
        assert(out@ =~= self.plaintext@.skip(s as int).take(n as int));
        proof {
            let rem = self.plaintext@.skip(s as int);
            assert(out@ + rem.skip(n as int) =~= rem);
            assert((self.handed@ + out@) + rem.skip(n as int) =~= self.handed@ + rem);
            assert(self.plaintext@.skip((s + n) as int) =~= rem.skip(n as int));
            if s + n == self.plaintext@.len() {
                assert(rem.skip(n as int) =~= Seq::<u8>::empty());
                assert((self.handed@ + out@) + Seq::<u8>::empty() =~= self.handed@ + out@);
                assert(frames(self.segments@) + Seq::<u8>::empty() =~= frames(self.segments@));
                assert(Seq::<u8>::empty() + Seq::<u8>::empty() =~= Seq::<u8>::empty());
            }
            self.handed@ = self.handed@ + out@;
        }
        self.plaintext_read_start = s + n;
        if self.plaintext_read_start == self.plaintext.len() {
            // The whole segment was handed out: read the next one
            self.plaintext.clear();
            self.ciphertext.clear();
            self.size_buf.clear();
            self.plaintext_read_start = 0;
            self.chunk_size = 0;
            self.decrypted = false;
        } else {
            assert(self.plaintext@.skip(self.plaintext_read_start as int) =~= self.plaintext@.skip(
                s as int,
            ).skip(n as int));
        }
        out
    }
}


/// What a reader hands out of a whole encrypted stream is what was
/// encrypted: once it has read the end marker of the framed body of
/// segments sealed under its key with nonces counting up from its first,
/// it has handed out exactly their plaintexts, in order. It rests on each
/// ciphertext opening to its plaintext, which the encryption states of
/// every ciphertext it returns.
pub proof fn lemma_reader_reads_back(r: SegmentReader, plains: Seq<Seq<u8>>)
    requires
        r.wf(),
        !r.is_broken(),
        r.finished(),
        r.first() + plains.len() <= u64::MAX + 1,
        r.consumed() == framed_body(seal_segments(r.key(), r.first(), plains)),
        frameable(seal_segments(r.key(), r.first(), plains)),
        forall|i: int| #![trigger plains[i]] 0 <= i < plains.len() ==> aes256gcm_open(
            r.key(),
            nonce_for((r.first() + i) as u64),
            aes256gcm_seal(r.key(), nonce_for((r.first() + i) as u64), plains[i]),
        ) == Some(plains[i]),
    ensures
        r.segments_read() == seal_segments(r.key(), r.first(), plains),
        r.handed() == concat(plains),
{
    let done = r.segments@;
    let xs = seal_segments(r.key(), r.first(), plains);
    let b0 = r.size_buf@[0];
    let b1 = r.size_buf@[1];
    assert(b0 == 0 && b1 == 0) by (nonlinear_arith)
        requires
            b0 as int * 256 + b1 as int == 0,
            0 <= b0,
            0 <= b1,
    ;
    assert(r.size_buf@ + r.ciphertext@ =~= seq![0u8, 0u8]);
    assert(frameable(done));
    lemma_frames_roundtrip(done);
    lemma_frames_roundtrip(xs);
    assert(framed_body(done) == r.consumed@);
    lemma_open_sealed(r.key(), r.first(), plains);
    assert(r.handed@ + Seq::<u8>::empty() =~= r.handed@);
}

/// A stream read back whole gives what was written: when a reader with
/// the writer's key and first nonce has consumed all that the writer
/// handed out followed by its end marker, and has read that marker, it
/// has handed out everything the writer encrypted, in order.
pub proof fn lemma_stream_round_trip(w: SegmentWriter, r: SegmentReader)
    requires
        w.wf(),
        !w.is_broken(),
        !w.is_sealed(),
        r.wf(),
        !r.is_broken(),
        r.finished(),
        r.key() == w.key(),
        r.first() == w.first(),
        r.consumed() == w.emitted() + seq![0u8, 0u8],
    ensures
        r.handed() == concat(w.sealed()),
{
    let k = w.key();
    let f = w.first();
    let ps = w.sealed();
    let xs = seal_segments(k, f, ps);
    assert(w.segment@.skip(w.segment_write_start as int) =~= Seq::<u8>::empty());
    assert(w.emitted@ + Seq::<u8>::empty() =~= w.emitted@);
    assert(r.consumed() == framed_body(xs));
    lemma_seal_segments_index(k, f, ps);
    assert forall|i: int| 0 <= i < xs.len() implies 1 <= #[trigger] xs[i].len() <= 65535 by {
        assert(xs[i] == aes256gcm_seal(k, nonce_for((f + i) as u64), ps[i]));
        assert(segment_sealed_ok(k, (f + i) as u64, ps[i]));
    }
    assert forall|i: int| #![trigger ps[i]] 0 <= i < ps.len() implies aes256gcm_open(
        k,
        nonce_for((f + i) as u64),
        aes256gcm_seal(k, nonce_for((f + i) as u64), ps[i]),
    ) == Some(ps[i]) by {
        assert(segment_sealed_ok(k, (f + i) as u64, ps[i]));
    }
    lemma_reader_reads_back(r, ps);
}

/// A fresh random key for an upload: the 32 key bytes and their URL-safe
/// base64 text, which the uploader receives.
pub fn fresh_key() -> (r: (Vec<u8>, Vec<u8>))
    ensures
        r.0@.len() == 32,
        r.1@ == crate::b64::spec_base64_encode(r.0@),
{
    let mut key: Vec<u8> = vec![0u8; 32];
    crate::random::random_bytes(key.as_mut_slice());
    let encoded = crate::b64::base64_encode(key.as_slice());
    (key, encoded)
}

} // verus!
