//! The decisions of the download endpoint and of the pages: the query of a
//! download, the password check, the name of a downloaded file, the expiry
//! of uploads, and the language of a page.
use vstd::prelude::*;
use vstd::string::*;
use vstd::utf8::*;
use crate::text::{str_eq, parse_unsigned, spec_parse_unsigned};
use crate::strs::{split_all, split_once_char, str_trim, trimmed, url_decode, first_index,
    split_pieces, percent_decoded, lemma_first_index_split};
use crate::b64::base64_encode_length;
use crate::upload::opt_bytes;
use argon2::PasswordVerifier;

verus! {

broadcast use vstd::utf8::encode_utf8_decode_utf8;

/// Length of an upload ID in URL-safe base64 (8 bytes).
pub const ID_STRING_LENGTH: usize = 11;

/// Length of an encryption key in URL-safe base64 (32 bytes).
pub const KEY_STRING_LENGTH: usize = 43;

/// What a download request asks for: the key for decryption by the
/// server, the password, and the index of the first segment to send.
pub struct DownloadQuery {
    pub crypto_key: Option<Vec<u8>>,
    pub password: Option<Vec<u8>>,
    pub start_index: u64,
}

/// `DownloadQuery` with byte strings as sequences.
pub struct DownloadQueryView {
    pub crypto_key: Option<Seq<u8>>,
    pub password: Option<Seq<u8>>,
    pub start_index: u64,
}

impl View for DownloadQuery {
    type V = DownloadQueryView;

    open spec fn view(&self) -> DownloadQueryView {
        DownloadQueryView {
            crypto_key: match self.crypto_key {
                Some(k) => Some(k@),
                None => None,
            },
            password: match self.password {
                Some(p) => Some(p@),
                None => None,
            },
            start_index: self.start_index,
        }
    }
}

/// The query after the field `key=value`: a `key` of the length of an
/// encoded key is taken as the key, a `password` as the percent-decoded
/// password (none where it is not UTF-8), a `start_index` that parses as
/// the index; anything else changes nothing.
pub open spec fn with_download_value(q: DownloadQueryView, key: Seq<char>, value: Seq<char>) -> DownloadQueryView {
    let vb = encode_utf8(value);
    if key == "key"@ {
        if vb.len() == KEY_STRING_LENGTH {
            DownloadQueryView { crypto_key: Some(vb), ..q }
        } else {
            q
        }
    } else if key == "password"@ {
        DownloadQueryView {
            password: if valid_utf8(percent_decoded(vb)) {
                Some(percent_decoded(vb))
            } else {
                None
            },
            ..q
        }
    } else if key == "start_index"@ {
        match spec_parse_unsigned(vb, u64::MAX as int) {
            Some(n) => DownloadQueryView { start_index: n as u64, ..q },
            None => q,
        }
    } else {
        q
    }
}

/// The query after the `&`-separated fields in order; a field without `=`
/// changes nothing.
pub open spec fn with_download_fields(q: DownloadQueryView, fields: Seq<Seq<char>>) -> DownloadQueryView
    decreases fields.len(),
{
    if fields.len() == 0 {
        q
    } else {
        let f = fields[0];
        let q1 = if f.contains('=') {
            let i = first_index(f, '=') as int;
            with_download_value(q, f.take(i), f.skip(i + 1))
        } else {
            q
        };
        with_download_fields(q1, fields.drop_first())
    }
}

/// What a download query string asks for.
pub open spec fn spec_download_query(query: Seq<char>) -> DownloadQueryView {
    with_download_fields(
        DownloadQueryView { crypto_key: None, password: None, start_index: 0 },
        split_pieces(query, '&'),
    )
}

impl DownloadQuery {
    fn set_value(&mut self, key: &str, value: &str)
        ensures
            final(self)@ == with_download_value(old(self)@, key@, value@),
    {
        if str_eq(key, "key") {
            if value.as_bytes().len() == KEY_STRING_LENGTH {
                self.crypto_key = Some(value.as_bytes_vec());
            }
        } else if str_eq(key, "password") {
            self.password = match url_decode(value) {
                Some(p) => Some(p.as_str().as_bytes_vec()),
                None => None,
            };
        } else if str_eq(key, "start_index") {
            if let Some(n) = parse_unsigned(value, 0xffff_ffff_ffff_ffff) {
                self.start_index = n;
            }
        }
    }
}

/// Reads the query string of a download (see `spec_download_query`).
pub fn parse_query(query: &str) -> (r: DownloadQuery)
    ensures
        r@ == spec_download_query(query@),
{
    let fields = split_all(query, '&');
    let ghost fv = fields@.map_values(|p: &str| p@);
    let mut q = DownloadQuery { crypto_key: None, password: None, start_index: 0 };
    proof {
        assert(fv.skip(0) =~= fv);
    }
    let mut i: usize = 0;
    while i < fields.len()
        invariant
            i <= fields@.len(),
            fv == fields@.map_values(|p: &str| p@),
            fv == split_pieces(query@, '&'),
            spec_download_query(query@) == with_download_fields(q@, fv.skip(i as int)),
        decreases fields@.len() - i,
    {
        let field = fields[i];
        let ghost rest = fv.skip(i as int);
        assert(rest[0] == field@);
        assert(rest.drop_first() =~= fv.skip(i + 1));
        match split_once_char(field, '=') {
            Some((key, value)) => {
                proof {
                    let f = field@;
                    assert(f.contains('=')) by {
                        assert(f[key@.len() as int] == '=');
                    }
                    lemma_first_index_split(key@, '=', value@);
                    assert(f.take(key@.len() as int) =~= key@);
                    assert(f.skip(key@.len() as int + 1) =~= value@);
                }
                q.set_value(key, value);
            },
            None => {},
        }
        i += 1;
    }
    assert(fv.skip(i as int) =~= Seq::<Seq<char>>::empty());
    q
}

/// Whether an Argon2 PHC string (read as UTF-8, with invalid bytes
/// replaced) verifies a password, as the `argon2` crate decides it.
pub uninterp spec fn argon2_verifies(hash: Seq<u8>, password: Seq<u8>) -> bool;

/// `PasswordHash::new` on the hash read lossily as UTF-8, then
/// `Argon2::default().verify_password`: claims only that the answer is a
/// function of the hash and the password (`argon2_verifies`); a hash that
/// does not parse verifies nothing.
#[verifier::external_body]
fn argon2_verify(hash: &[u8], password: &[u8]) -> (r: bool)
    ensures
        r == argon2_verifies(hash@, password@),
{
    let hash_string = String::from_utf8_lossy(hash).to_string();
    match argon2::PasswordHash::new(&hash_string) {
        Ok(h) => argon2::Argon2::default().verify_password(password, &h).is_ok(),
        Err(_) => false,
    }
}

/// Whether a download may proceed: always where the upload has no
/// password hash; else only with a password that the hash verifies.
pub open spec fn password_accepted(password: Option<Seq<u8>>, password_hash: Option<Seq<u8>>) -> bool {
    match password_hash {
        None => true,
        Some(h) => match password {
            None => false,
            Some(p) => argon2_verifies(h, p),
        },
    }
}

/// Whether a download may proceed (see `password_accepted`).
pub fn check_password(password: &Option<Vec<u8>>, password_hash: &Option<Vec<u8>>) -> (r: bool)
    ensures
        r == password_accepted(opt_bytes(*password), opt_bytes(*password_hash)),
{
    match password_hash {
        None => true,
        Some(h) => match password {
            None => false,
            Some(p) => argon2_verify(h.as_slice(), p.as_slice()),
        },
    }
}

/// Whether a byte is left as it is by URL encoding: ASCII letters and
/// digits, `-`, `.`, `_` and `~`.
pub open spec fn url_safe(b: u8) -> bool {
    (48 <= b <= 57) || (65 <= b <= 90) || (97 <= b <= 122) || b == 45 || b == 46 || b == 95 || b == 126
}

/// An uppercase hexadecimal digit.
pub open spec fn hex_digit(d: u8) -> u8 {
    if d < 10 {
        (48 + d) as u8
    } else {
        (55 + d) as u8
    }
}

/// URL encoding: each byte that is not `url_safe` becomes `%` and its two
/// uppercase hexadecimal digits.
pub open spec fn url_encoded(b: Seq<u8>) -> Seq<u8>
    decreases b.len(),
{
    if b.len() == 0 {
        Seq::empty()
    } else {
        let rest = url_encoded(b.skip(1));
        if url_safe(b[0]) {
            seq![b[0]] + rest
        } else {
            seq![37u8, hex_digit(b[0] / 16), hex_digit(b[0] % 16)] + rest
        }
    }
}

/// `urlencoding::encode`, made owned: claims that the result's bytes are
/// the URL encoding of the string's bytes.
#[verifier::external_body]
pub(crate) fn url_encode(s: &str) -> (r: String)
    ensures
        encode_utf8(r@) == url_encoded(s.spec_bytes()),
{
    urlencoding::encode(s).into_owned()
}

/// The extension given to a file without a name, by its MIME type.
pub open spec fn default_extension(mime_type: Seq<char>) -> Seq<char> {
    if mime_type == "application/zip"@ {
        ".zip"@
    } else if mime_type == "text/plain"@ {
        ".txt"@
    } else {
        ""@
    }
}

/// The name under which a decrypted file is sent: its own name, or where
/// it has none, the application's name, `_`, the upload ID and an
/// extension for its MIME type; URL-encoded.
pub open spec fn spec_download_name(file_name: Seq<char>, mime_type: Seq<char>, app_name: Seq<char>,
    id: Seq<char>) -> Seq<u8> {
    let name = if file_name.len() == 0 {
        app_name + "_"@ + id + default_extension(mime_type)
    } else {
        file_name
    };
    url_encoded(encode_utf8(name))
}

/// The name under which a decrypted file is sent (see `spec_download_name`).
pub fn download_file_name(file_name: &str, mime_type: &str, app_name: &str, id: &str) -> (r: String)
    ensures
        encode_utf8(r@) == spec_download_name(file_name@, mime_type@, app_name@, id@),
{
    if file_name.is_empty() {
        let mut name = String::from_str(app_name);
        name.append("_");
        name.append(id);
        if str_eq(mime_type, "application/zip") {
            name.append(".zip");
        } else if str_eq(mime_type, "text/plain") {
            name.append(".txt");
        }
        proof {
            reveal_strlit("");
            if mime_type@ != "application/zip"@ && mime_type@ != "text/plain"@ {
                assert(name@ =~= app_name@ + "_"@ + id@ + ""@);
            }
        }
        url_encode(name.as_str())
    } else {
        url_encode(file_name)
    }
}

/// The Content-Disposition of a download: `attachment; filename="NAME"`.
pub fn content_disposition(file_name: &str) -> (r: String)
    ensures
        r@ == "attachment; filename=\""@ + file_name@ + "\""@,
{
    let mut r = String::from_str("attachment; filename=\"");
    r.append(file_name);
    r.append("\"");
    r
}

/// Whether a path segment has the length of an upload ID.
pub fn is_id_string(s: &str) -> (r: bool)
    ensures
        r == (s.spec_bytes().len() == ID_STRING_LENGTH),
{
    s.as_bytes().len() == base64_encode_length(8)
}

/// The record of an upload that decides when it expires.
pub struct Upload {
    pub id: i64,
    pub password_hash: Option<Vec<u8>>,
    /// Downloads left, where they are limited.
    pub remaining_downloads: Option<i32>,
    /// When the upload expires, in milliseconds since the Unix epoch (UTC).
    pub expire_after: i64,
    pub is_completed: bool,
}

impl Upload {
    /// Whether the upload has expired at the time `now`: its time limit has
    /// passed or its downloads are used up.
    pub open spec fn spec_expired(&self, now: i64) -> bool {
        now > self.expire_after || match self.remaining_downloads {
            Some(n) => n <= 0,
            None => false,
        }
    }

    /// Whether the time limit has passed at the time `now` (milliseconds
    /// since the Unix epoch, UTC).
    pub fn is_expired_time(&self, now: i64) -> (r: bool)
        ensures
            r == (now > self.expire_after),
    {
        now > self.expire_after
    }

    /// Whether the downloads allowed are used up.
    pub fn is_expired_downloads(&self) -> (r: bool)
        ensures
            r == match self.remaining_downloads {
                Some(n) => n <= 0,
                None => false,
            },
    {
        match self.remaining_downloads {
            Some(n) => n <= 0,
            None => false,
        }
    }

    /// Whether the upload has expired at the time `now`, by time or by
    /// downloads.
    pub fn is_expired(&self, now: i64) -> (r: bool)
        ensures
            r == self.spec_expired(now),
    {
        self.is_expired_time(now) || self.is_expired_downloads()
    }
}

/// Whether an upload directory without a database record was left
/// behind: its file was last written more than the read timeout and five
/// seconds ago.
pub fn is_abandoned(age_millis: u128, read_timeout_ms: u64) -> (r: bool)
    ensures
        r == (age_millis > 5000 + read_timeout_ms),
{
    age_millis > 5000u128 + read_timeout_ms as u128
}


proof fn lemma_hex_digit(d: u8)
    requires
        d < 16,
    ensures
        crate::strs::hex_value(hex_digit(d)) == Some(d),
{
}

/// Decoding what URL encoding gives back gives back the bytes: the
/// percent-decoding of the download path inverts the encoding of file
/// names.
pub proof fn lemma_url_round_trip(b: Seq<u8>)
    ensures
        percent_decoded(url_encoded(b)) == b,
    decreases b.len(),
{
    if b.len() > 0 {
        let rest = b.skip(1);
        lemma_url_round_trip(rest);
        let e = url_encoded(b);
        let er = url_encoded(rest);
        if url_safe(b[0]) {
            assert(e == seq![b[0]] + er);
            assert(e.skip(1) =~= er);
            assert(e[0] != 37);
        } else {
            let hi = b[0] / 16;
            let lo = b[0] % 16;
            lemma_hex_digit(hi);
            lemma_hex_digit(lo);
            assert(e == seq![37u8, hex_digit(hi), hex_digit(lo)] + er);
            assert(e[1] == hex_digit(hi));
            assert(e[2] == hex_digit(lo));
            assert(e.skip(3) =~= er);
            assert((hi * 16 + lo) as u8 == b[0]);
        }
        assert(b =~= seq![b[0]] + rest);
    }
}

/// An expired upload stays expired: expiry at a time implies expiry at
/// every later time.
pub proof fn lemma_expiry_monotone(upload: &Upload, t1: i64, t2: i64)
    requires
        t1 <= t2,
        upload.spec_expired(t1),
    ensures
        upload.spec_expired(t2),
{
}


/// Whether a read of a stored upload that reached its end should wait for
/// more data: only while the upload is still in progress and data came in
/// at most a second ago.
pub fn read_should_wait(bytes_read: usize, in_progress: bool, millis_since_last_read: u128) -> (r: bool)
    ensures
        r == (bytes_read == 0 && in_progress && millis_since_last_read <= 1000),
{
    bytes_read == 0 && in_progress && millis_since_last_read <= 1000
}

} // verus!
