//! The decisions of the upload endpoints: the query string of an upload,
//! the fields of the upload form, the plan for each uploaded file, the
//! metadata written for an upload, and the codes sent back to clients.
use vstd::prelude::*;
use vstd::string::*;
use vstd::utf8::*;
use argon2::PasswordHasher;
use crate::download::{argon2_verifies, password_accepted};
use crate::text::{str_eq, parse_unsigned, spec_parse_unsigned};
use crate::strs::{split_all, split_once_char, split_once_str, str_trim, trimmed, occurs_at,
    url_decode, first_index, split_pieces,
    percent_decoded, lemma_first_index_split};

verus! {

broadcast use vstd::utf8::encode_utf8_decode_utf8;

/// Why an upload failed, as sent to clients in a one-byte message.
#[derive(Clone, Copy, Debug, PartialEq, Eq, Structural)]
pub enum UploadError {
    FileSize,
    Quota,
    Storage,
    Protocol,
    Cancelled,
    Other,
}

impl UploadError {
    /// The byte that stands for this error on the wire.
    pub open spec fn spec_code(self) -> u8 {
        match self {
            UploadError::FileSize => 1,
            UploadError::Quota => 2,
            UploadError::Storage => 3,
            UploadError::Protocol => 4,
            UploadError::Cancelled => 5,
            UploadError::Other => 0,
        }
    }

    /// The byte that stands for this error on the wire.
    pub fn code(&self) -> (c: u8)
        ensures
            c == self.spec_code(),
    {
        match self {
            UploadError::FileSize => 1,
            UploadError::Quota => 2,
            UploadError::Storage => 3,
            UploadError::Protocol => 4,
            UploadError::Cancelled => 5,
            UploadError::Other => 0,
        }
    }

    /// The error that a byte stands for; unknown bytes stand for `Other`.
    pub fn from_code(c: u8) -> (e: UploadError)
        ensures
            1 <= c <= 5 ==> e.spec_code() == c,
            !(1 <= c <= 5) ==> e == UploadError::Other,
    {
        if c == 1 {
            UploadError::FileSize
        } else if c == 2 {
            UploadError::Quota
        } else if c == 3 {
            UploadError::Storage
        } else if c == 4 {
            UploadError::Protocol
        } else if c == 5 {
            UploadError::Cancelled
        } else {
            UploadError::Other
        }
    }
}

/// Longest accepted value of a query parameter, in bytes.
pub const MAX_QUERY_VALUE_LEN: usize = 4096;

/// Upload settings given in the query string of an upload request.
pub struct UploadQuery {
    pub minutes: Option<u32>,
    pub max_downloads: Option<u32>,
    pub password: Option<String>,
    pub file_name: Option<Vec<u8>>,
    pub mime_type: Option<Vec<u8>>,
}

/// The settings of an upload query, with strings and byte strings as
/// sequences.
pub struct QueryView {
    pub minutes: Option<u32>,
    pub max_downloads: Option<u32>,
    pub password: Option<Seq<char>>,
    pub file_name: Option<Seq<u8>>,
    pub mime_type: Option<Seq<u8>>,
}

impl View for UploadQuery {
    type V = QueryView;

    open spec fn view(&self) -> QueryView {
        QueryView {
            minutes: self.minutes,
            max_downloads: self.max_downloads,
            password: match self.password {
                Some(p) => Some(p@),
                None => None,
            },
            file_name: match self.file_name {
                Some(f) => Some(f@),
                None => None,
            },
            mime_type: match self.mime_type {
                Some(m) => Some(m@),
                None => None,
            },
        }
    }
}

/// A query with no setting.
pub open spec fn empty_query() -> QueryView {
    QueryView { minutes: None, max_downloads: None, password: None, file_name: None, mime_type: None }
}

/// Whether the query already sets the parameter `key`.
pub open spec fn key_defined(q: QueryView, key: Seq<char>) -> bool {
    if key == "minutes"@ {
        q.minutes is Some
    } else if key == "password"@ {
        q.password is Some
    } else if key == "max-downloads"@ {
        q.max_downloads is Some
    } else if key == "file-name"@ {
        q.file_name is Some
    } else if key == "mime-type"@ {
        q.mime_type is Some
    } else {
        false
    }
}

/// The query after the field `key=value`, or `None` where the field makes
/// the query invalid: a repeated or unknown key, a value over 4096 bytes,
/// a number that does not parse, a password that does not decode.
pub open spec fn with_query_value(q: QueryView, key: Seq<char>, value: Seq<char>) -> Option<QueryView> {
    let vb = encode_utf8(value);
    if key_defined(q, key) || vb.len() > MAX_QUERY_VALUE_LEN {
        None
    } else if key == "minutes"@ {
        match spec_parse_unsigned(vb, u32::MAX as int) {
            Some(n) => Some(QueryView { minutes: Some(n as u32), ..q }),
            None => None,
        }
    } else if key == "password"@ {
        if valid_utf8(percent_decoded(vb)) {
            Some(QueryView { password: Some(decode_utf8(percent_decoded(vb))), ..q })
        } else {
            None
        }
    } else if key == "max-downloads"@ {
        match spec_parse_unsigned(vb, u32::MAX as int) {
            Some(n) => Some(QueryView { max_downloads: Some(n as u32), ..q }),
            None => None,
        }
    } else if key == "file-name"@ {
        Some(QueryView { file_name: Some(vb), ..q })
    } else if key == "mime-type"@ {
        Some(QueryView { mime_type: Some(vb), ..q })
    } else {
        None
    }
}

/// The query after one `&`-separated field; a field without `=` is ignored.
pub open spec fn with_query_field(q: QueryView, field: Seq<char>) -> Option<QueryView> {
    if field.contains('=') {
        let i = first_index(field, '=') as int;
        with_query_value(q, field.take(i), field.skip(i + 1))
    } else {
        Some(q)
    }
}

/// The query after the fields in order, `None` once one is invalid.
pub open spec fn with_query_fields(q: Option<QueryView>, fields: Seq<Seq<char>>) -> Option<QueryView>
    decreases fields.len(),
{
    if fields.len() == 0 {
        q
    } else {
        match q {
            Some(q0) => with_query_fields(with_query_field(q0, fields[0]), fields.drop_first()),
            None => None,
        }
    }
}

/// The settings that an upload query string gives, or `None` where it is
/// invalid.
pub open spec fn spec_upload_query(query: Seq<char>) -> Option<QueryView> {
    with_query_fields(Some(empty_query()), split_pieces(query, '&'))
}

proof fn lemma_with_query_fields_none(fields: Seq<Seq<char>>)
    ensures
        with_query_fields(None, fields) is None,
{
}

impl UploadQuery {
    /// Whether the query already sets the parameter `key`.
    pub fn is_key_defined(&self, key: &str) -> (r: bool)
        ensures
            r == key_defined(self@, key@),
    {
        if str_eq(key, "minutes") {
            self.minutes.is_some()
        } else if str_eq(key, "password") {
            self.password.is_some()
        } else if str_eq(key, "max-downloads") {
            self.max_downloads.is_some()
        } else if str_eq(key, "file-name") {
            self.file_name.is_some()
        } else if str_eq(key, "mime-type") {
            self.mime_type.is_some()
        } else {
            false
        }
    }

    /// Applies the field `key=value`; `false` where it makes the query invalid.
    fn set_value(&mut self, key: &str, value: &str) -> (ok: bool)
        ensures
            ok == (with_query_value(old(self)@, key@, value@) is Some),
            ok ==> final(self)@ == with_query_value(old(self)@, key@, value@)->0,
    {
        if self.is_key_defined(key) {
            return false;
        }
        if value.as_bytes().len() > MAX_QUERY_VALUE_LEN {
            return false;
        }
        if str_eq(key, "minutes") {
            match parse_unsigned(value, 0xffff_ffff) {
                Some(n) => {
                    self.minutes = Some(n as u32);
                    true
                },
                None => false,
            }
        } else if str_eq(key, "password") {
            match url_decode(value) {
                Some(p) => {
                    self.password = Some(p);
                    true
                },
                None => false,
            }
        } else if str_eq(key, "max-downloads") {
            match parse_unsigned(value, 0xffff_ffff) {
                Some(n) => {
                    self.max_downloads = Some(n as u32);
                    true
                },
                None => false,
            }
        } else if str_eq(key, "file-name") {
            self.file_name = Some(value.as_bytes_vec());
            true
        } else if str_eq(key, "mime-type") {
            self.mime_type = Some(value.as_bytes_vec());
            true
        } else {
            false
        }
    }

    /// Parses the query string of an upload: `&`-separated `key=value`
    /// fields among `minutes`, `password` (percent-encoded),
    /// `max-downloads`, `file-name` and `mime-type`. `None` where a key is
    /// repeated or unknown, a value is longer than 4096 bytes, or a value
    /// does not parse.
    pub fn new(query: &str) -> (r: Option<UploadQuery>)
        ensures
            match r {
                Some(q) => spec_upload_query(query@) == Some(q@),
                None => spec_upload_query(query@) is None,
            },
    {
        let fields = split_all(query, '&');
        let ghost fv = fields@.map_values(|p: &str| p@);
        let mut q = UploadQuery {
            minutes: None,
            max_downloads: None,
            password: None,
            file_name: None,
            mime_type: None,
        };
        proof {
            assert(fv.skip(0) =~= fv);
            assert(q@ == empty_query());
        }
        let mut i: usize = 0;
        while i < fields.len()
            invariant
                i <= fields@.len(),
                fv == fields@.map_values(|p: &str| p@),
                fv == split_pieces(query@, '&'),
                spec_upload_query(query@) == with_query_fields(Some(q@), fv.skip(i as int)),
            decreases fields@.len() - i,
        {
            let field = fields[i];
            let ghost rest = fv.skip(i as int);
            assert(rest[0] == field@);
            assert(rest.drop_first() =~= fv.skip(i + 1));
            match split_once_char(field, '=') {
                Some((key, value)) => {
                    proof {
                        let f = field@;
                        assert(f.contains('=')) by {
                            assert(f[key@.len() as int] == '=');
                        }
                        lemma_first_index_split(key@, '=', value@);
                        assert(f.take(key@.len() as int) =~= key@);
                        assert(f.skip(key@.len() as int + 1) =~= value@);
                    }
                    if !q.set_value(key, value) {
                        proof {
                            lemma_with_query_fields_none(fv.skip(i + 1));
                        }
                        return None;
                    }
                },
                None => {},
            }
            i += 1;
        }
        assert(fv.skip(i as int) =~= Seq::<Seq<char>>::empty());
        Some(q)
    }

    /// The minutes, download limit, password, file name and MIME type;
    /// `None` where the query gives no number of minutes.
    pub fn get_values(self) -> (r: Option<(u32, Option<u32>, Option<String>, Option<Vec<u8>>, Option<Vec<u8>>)>)
        ensures
            match r {
                Some((m, d, p, f, t)) => {
                    &&& self.minutes == Some(m)
                    &&& d == self.max_downloads
                    &&& p == self.password
                    &&& f == self.file_name
                    &&& t == self.mime_type
                },
                None => self.minutes is None,
            },
    {
        match self.minutes {
            Some(m) => Some((m, self.max_downloads, self.password, self.file_name, self.mime_type)),
            None => None,
        }
    }
}


/// The fields of the upload form.
#[derive(Clone, Copy, Debug, PartialEq, Eq, Structural)]
pub enum FormField {
    ServerSideProcessing,
    EnableMultipleFiles,
    Files,
    Days,
    Hours,
    Minutes,
    EnableMaxDownloads,
    MaxDownloads,
    EnablePassword,
    Password,
    Invalid,
}

/// The field that a Content-Disposition names: a file where it starts
/// with `form-data; name="files"; filename=`, one of the known fields where it is exactly
/// theirs, and `Invalid` otherwise.
pub open spec fn cd_field(cd: Seq<char>) -> FormField {
    if crate::text::starts_with(encode_utf8(cd), encode_utf8("form-data; name=\"files\"; filename="@)) {
        FormField::Files
    } else if cd == "form-data; name=\"server-side-processing\""@ {
        FormField::ServerSideProcessing
    } else if cd == "form-data; name=\"enable-multiple-files\""@ {
        FormField::EnableMultipleFiles
    } else if cd == "form-data; name=\"days\""@ {
        FormField::Days
    } else if cd == "form-data; name=\"hours\""@ {
        FormField::Hours
    } else if cd == "form-data; name=\"minutes\""@ {
        FormField::Minutes
    } else if cd == "form-data; name=\"enable-max-downloads\""@ {
        FormField::EnableMaxDownloads
    } else if cd == "form-data; name=\"max-downloads\""@ {
        FormField::MaxDownloads
    } else if cd == "form-data; name=\"enable-password\""@ {
        FormField::EnablePassword
    } else if cd == "form-data; name=\"password\""@ {
        FormField::Password
    } else {
        FormField::Invalid
    }
}

/// The field that a Content-Disposition header value names.
pub fn match_content_disposition(cd: &str) -> (f: FormField)
    ensures
        f == cd_field(cd@),
{
    if crate::text::bytes_start_with(cd.as_bytes(), "form-data; name=\"files\"; filename=".as_bytes()) {
        FormField::Files
    } else if str_eq(cd, "form-data; name=\"server-side-processing\"") {
        FormField::ServerSideProcessing
    } else if str_eq(cd, "form-data; name=\"enable-multiple-files\"") {
        FormField::EnableMultipleFiles
    } else if str_eq(cd, "form-data; name=\"days\"") {
        FormField::Days
    } else if str_eq(cd, "form-data; name=\"hours\"") {
        FormField::Hours
    } else if str_eq(cd, "form-data; name=\"minutes\"") {
        FormField::Minutes
    } else if str_eq(cd, "form-data; name=\"enable-max-downloads\"") {
        FormField::EnableMaxDownloads
    } else if str_eq(cd, "form-data; name=\"max-downloads\"") {
        FormField::MaxDownloads
    } else if str_eq(cd, "form-data; name=\"enable-password\"") {
        FormField::EnablePassword
    } else if str_eq(cd, "form-data; name=\"password\"") {
        FormField::Password
    } else {
        FormField::Invalid
    }
}

/// The settings of an upload given in its form (or its query string).
pub struct UploadForm {
    pub server_side_processing: Option<bool>,
    pub enable_multiple_files: Option<bool>,
    pub days: Option<u16>,
    pub hours: Option<u8>,
    pub minutes: Option<u8>,
    pub enable_max_downloads: Option<bool>,
    pub max_downloads: Option<u32>,
    pub enable_password: Option<bool>,
    pub password: Option<String>,
}

/// The settings of an upload form, with the password as characters.
pub struct FormView {
    pub server_side_processing: Option<bool>,
    pub enable_multiple_files: Option<bool>,
    pub days: Option<u16>,
    pub hours: Option<u8>,
    pub minutes: Option<u8>,
    pub enable_max_downloads: Option<bool>,
    pub max_downloads: Option<u32>,
    pub enable_password: Option<bool>,
    pub password: Option<Seq<char>>,
}

impl View for UploadForm {
    type V = FormView;

    open spec fn view(&self) -> FormView {
        FormView {
            server_side_processing: self.server_side_processing,
            enable_multiple_files: self.enable_multiple_files,
            days: self.days,
            hours: self.hours,
            minutes: self.minutes,
            enable_max_downloads: self.enable_max_downloads,
            max_downloads: self.max_downloads,
            enable_password: self.enable_password,
            password: match self.password {
                Some(p) => Some(p@),
                None => None,
            },
        }
    }
}

/// A form with no field set.
pub open spec fn empty_form() -> FormView {
    FormView {
        server_side_processing: None,
        enable_multiple_files: None,
        days: None,
        hours: None,
        minutes: None,
        enable_max_downloads: None,
        max_downloads: None,
        enable_password: None,
        password: None,
    }
}

impl Default for UploadForm {
    fn default() -> (r: Self)
        ensures
            r@ == empty_form(),
    {
        UploadForm {
            server_side_processing: None,
            enable_multiple_files: None,
            days: None,
            hours: None,
            minutes: None,
            enable_max_downloads: None,
            max_downloads: None,
            enable_password: None,
            password: None,
        }
    }
}

/// Whether a field may still be given: it is a known field other than the
/// files, and it has no value yet.
pub open spec fn field_is_open(f: FormView, field: FormField) -> bool {
    match field {
        FormField::ServerSideProcessing => f.server_side_processing is None,
        FormField::EnableMultipleFiles => f.enable_multiple_files is None,
        FormField::Days => f.days is None,
        FormField::Hours => f.hours is None,
        FormField::Minutes => f.minutes is None,
        FormField::EnableMaxDownloads => f.enable_max_downloads is None,
        FormField::MaxDownloads => f.max_downloads is None,
        FormField::EnablePassword => f.enable_password is None,
        FormField::Password => f.password is None,
        _ => false,
    }
}

/// The form after the field `field` with the UTF-8 text `v`, or `None`
/// where the value is refused: the field already has a value, or a number
/// does not parse into its type. A check box is on exactly for `on`.
pub open spec fn with_field_text(f: FormView, field: FormField, v: Seq<char>) -> Option<FormView> {
    let b = encode_utf8(v);
    if !field_is_open(f, field) {
        None
    } else {
        match field {
            FormField::ServerSideProcessing => Some(FormView { server_side_processing: Some(v == "on"@), ..f }),
            FormField::EnableMultipleFiles => Some(FormView { enable_multiple_files: Some(v == "on"@), ..f }),
            FormField::EnableMaxDownloads => Some(FormView { enable_max_downloads: Some(v == "on"@), ..f }),
            FormField::EnablePassword => Some(FormView { enable_password: Some(v == "on"@), ..f }),
            FormField::Days => match spec_parse_unsigned(b, u16::MAX as int) {
                Some(n) => Some(FormView { days: Some(n as u16), ..f }),
                None => None,
            },
            FormField::Hours => match spec_parse_unsigned(b, u8::MAX as int) {
                Some(n) => Some(FormView { hours: Some(n as u8), ..f }),
                None => None,
            },
            FormField::Minutes => match spec_parse_unsigned(b, u8::MAX as int) {
                Some(n) => Some(FormView { minutes: Some(n as u8), ..f }),
                None => None,
            },
            FormField::MaxDownloads => match spec_parse_unsigned(b, u32::MAX as int) {
                Some(n) => Some(FormView { max_downloads: Some(n as u32), ..f }),
                None => None,
            },
            FormField::Password => Some(FormView { password: Some(v), ..f }),
            _ => None,
        }
    }
}

/// The form after the field `field` with the bytes `value`, or `None`
/// where they are refused (they must be UTF-8, see `with_field_text`).
pub open spec fn with_field(f: FormView, field: FormField, value: Seq<u8>) -> Option<FormView> {
    if valid_utf8(value) {
        with_field_text(f, field, decode_utf8(value))
    } else {
        None
    }
}

impl UploadForm {
    /// The form that an upload query stands for: server-side processing as
    /// given, the minutes split into days, hours and minutes, and the
    /// download limit and password where they are given.
    pub fn new(server_side_processing: bool, minutes: u32, max_downloads: Option<u32>,
        password: Option<String>) -> (r: Self)
        ensures
            r.server_side_processing == Some(server_side_processing),
            r.enable_multiple_files is None,
            r.days == Some((minutes / 1440) as u16),
            r.hours == Some(((minutes % 1440) / 60) as u8),
            r.minutes == Some((minutes % 60) as u8),
            r.enable_max_downloads == (if max_downloads is Some { Some(true) } else { None::<bool> }),
            r.max_downloads == max_downloads,
            r.enable_password == (if password is Some { Some(true) } else { None::<bool> }),
            r.password == password,
            r@ == spec_new_form(server_side_processing, minutes, max_downloads, match password {
                Some(p) => Some(p@),
                None => None,
            }),
    {
        let mut form = UploadForm::default();
        form.server_side_processing = Some(server_side_processing);
        let days = minutes / (60 * 24);
        let hours = (minutes % (60 * 24)) / 60;
        let mins = minutes % 60;
        form.days = Some(days as u16);
        form.hours = Some(hours as u8);
        form.minutes = Some(mins as u8);
        if let Some(max_downloads) = max_downloads {
            form.enable_max_downloads = Some(true);
            form.max_downloads = Some(max_downloads);
        }
        if let Some(password) = password {
            form.enable_password = Some(true);
            form.password = Some(password);
        }
        form
    }

    /// Whether `field` may still be given.
    pub fn is_valid_field(&self, field: &FormField) -> (r: bool)
        ensures
            r == field_is_open(self@, *field),
    {
        match field {
            FormField::ServerSideProcessing => self.server_side_processing.is_none(),
            FormField::EnableMultipleFiles => self.enable_multiple_files.is_none(),
            FormField::Days => self.days.is_none(),
            FormField::Hours => self.hours.is_none(),
            FormField::Minutes => self.minutes.is_none(),
            FormField::EnableMaxDownloads => self.enable_max_downloads.is_none(),
            FormField::MaxDownloads => self.max_downloads.is_none(),
            FormField::EnablePassword => self.enable_password.is_none(),
            FormField::Password => self.password.is_none(),
            _ => false,
        }
    }

    /// Sets a check box: on exactly for `on`; `false` where it is already set.
    pub fn parse_bool_value(value: &str, field: &mut Option<bool>) -> (ok: bool)
        ensures
            ok == (*old(field) is None),
            ok ==> *final(field) == Some(value@ == "on"@),
            !ok ==> *final(field) == *old(field),
    {
        match *field {
            Some(_) => false,
            None => {
                *field = Some(str_eq(value, "on"));
                true
            },
        }
    }

    /// Sets a number no greater than `max`; `false` where it is already set
    /// or the text is no such number.
    pub fn parse_from_str(value: &str, max: u64, field: &mut Option<u64>) -> (ok: bool)
        ensures
            ok == (*old(field) is None && spec_parse_unsigned(value.spec_bytes(), max as int) is Some),
            ok ==> *final(field) == Some(spec_parse_unsigned(value.spec_bytes(), max as int)->0 as u64),
            !ok ==> *final(field) == *old(field),
    {
        match *field {
            Some(_) => false,
            None => match parse_unsigned(value, max) {
                Some(n) => {
                    *field = Some(n);
                    true
                },
                None => false,
            },
        }
    }

    /// Sets a text field; `false` where it is already set.
    pub fn parse_string_value(value: &str, field: &mut Option<String>) -> (ok: bool)
        ensures
            ok == (*old(field) is None),
            ok ==> *final(field) is Some && final(field)->0@ == value@,
            !ok ==> *final(field) == *old(field),
    {
        match *field {
            Some(_) => false,
            None => {
                *field = Some(String::from_str(value));
                true
            },
        }
    }

    /// Sets a number field of the form from text.
    fn parse_number(&mut self, field: &FormField, value: &str) -> (ok: bool)
        requires
            *field == FormField::Days || *field == FormField::Hours || *field == FormField::Minutes
                || *field == FormField::MaxDownloads,
        ensures
            ok == (with_field_text(old(self)@, *field, value@) is Some),
            ok ==> final(self)@ == with_field_text(old(self)@, *field, value@)->0,
            !ok ==> final(self)@ == old(self)@,
    {
        if !self.is_valid_field(field) {
            return false;
        }
        let max: u64 = match field {
            FormField::Days => 0xffff,
            FormField::Hours => 0xff,
            FormField::Minutes => 0xff,
            _ => 0xffff_ffff,
        };
        match parse_unsigned(value, max) {
            Some(n) => {
                match field {
                    FormField::Days => self.days = Some(n as u16),
                    FormField::Hours => self.hours = Some(n as u8),
                    FormField::Minutes => self.minutes = Some(n as u8),
                    _ => self.max_downloads = Some(n as u32),
                }
                true
            },
            None => false,
        }
    }

    /// Sets `field` from the bytes of its value, which must be UTF-8;
    /// returns whether the value was accepted (the form is unchanged where
    /// it was not).
    pub fn parse_field(&mut self, field: &FormField, value: &[u8]) -> (ok: bool)
        ensures
            ok == (with_field(old(self)@, *field, value@) is Some),
            ok ==> final(self)@ == with_field(old(self)@, *field, value@)->0,
            !ok ==> final(self)@ == old(self)@,
    {
        match crate::text::utf8_str(value) {
            Some(text) => {
                proof {
                    assert(decode_utf8(value@) == text@);
                }
                match field {
                    FormField::ServerSideProcessing => Self::parse_bool_value(text, &mut self.server_side_processing),
                    FormField::EnableMultipleFiles => Self::parse_bool_value(text, &mut self.enable_multiple_files),
                    FormField::EnableMaxDownloads => Self::parse_bool_value(text, &mut self.enable_max_downloads),
                    FormField::EnablePassword => Self::parse_bool_value(text, &mut self.enable_password),
                    FormField::Password => Self::parse_string_value(text, &mut self.password),
                    FormField::Days | FormField::Hours | FormField::Minutes | FormField::MaxDownloads => self.parse_number(field, text),
                    _ => false,
                }
            },
            None => false,
        }
    }

    /// Whether a password is required for downloads.
    pub fn is_password_protected(&self) -> (r: bool)
        ensures
            r == (self.enable_password == Some(true) && self.password is Some),
    {
        let enabled = match self.enable_password {
            Some(b) => b,
            None => false,
        };
        enabled && self.password.is_some()
    }

    /// Whether the form gives a complete time limit.
    pub fn has_time_limit(&self) -> (r: bool)
        ensures
            r == (self.minutes is Some && self.hours is Some && self.days is Some),
    {
        self.minutes.is_some() && self.hours.is_some() && self.days.is_some()
    }
}


/// Index of the first occurrence of `p` in `s`.
pub open spec fn first_occurrence(s: Seq<char>, p: Seq<char>) -> Option<int> {
    if exists|k: int| occurs_at(s, k, p) {
        Some(choose|k: int| occurs_at(s, k, p) && forall|j: int| 0 <= j < k ==> !occurs_at(s, j, p))
    } else {
        None
    }
}

/// Splitting around a pattern that the prefix does not contain splits at
/// its first occurrence.
pub proof fn lemma_first_occurrence(s: Seq<char>, p: Seq<char>, a: Seq<char>, b: Seq<char>)
    requires
        s == a + p + b,
        forall|k: int| 0 <= k < a.len() ==> !#[trigger] occurs_at(s, k, p),
    ensures
        first_occurrence(s, p) == Some(a.len() as int),
{
    assert(s.subrange(a.len() as int, a.len() as int + p.len()) =~= p);
    assert(occurs_at(s, a.len() as int, p));
    let k = choose|k: int| occurs_at(s, k, p) && forall|j: int| 0 <= j < k ==> !occurs_at(s, j, p);
    if !(occurs_at(s, k, p) && forall|j: int| 0 <= j < k ==> !occurs_at(s, j, p)) {
        assert(forall|j: int| 0 <= j < a.len() ==> !occurs_at(s, j, p));
    }
}

/// A pattern that occurs nowhere has no first occurrence.
pub proof fn lemma_no_occurrence(s: Seq<char>, p: Seq<char>)
    requires
        forall|k: int| !#[trigger] occurs_at(s, k, p),
    ensures
        first_occurrence(s, p) is None,
{
}

/// The file name in a Content-Disposition: the text after the first
/// `filename=`, trimmed, which must be longer than two characters and
/// quoted; the name is what stands between the quotes.
pub open spec fn spec_file_name(cd: Seq<char>) -> Option<Seq<char>> {
    match first_occurrence(cd, "filename="@) {
        Some(k) => {
            let t = trimmed(cd.skip(k + 9));
            if t.len() > 2 && t[0] == '"' && t.last() == '"' {
                Some(t.subrange(1, t.len() - 1))
            } else {
                None
            }
        },
        None => None,
    }
}

/// The file name given in a Content-Disposition (see `spec_file_name`).
pub fn get_file_name<'a>(cd: &'a str) -> (r: Option<&'a str>)
    ensures
        match r {
            Some(n) => spec_file_name(cd@) == Some(n@),
            None => spec_file_name(cd@) is None,
        },
{
    proof {
        reveal_strlit("filename=");
    }
    match split_once_str(cd, "filename=") {
        Some((before, after)) => {
            proof {
                lemma_first_occurrence(cd@, "filename="@, before@, after@);
                assert(cd@.skip(before@.len() as int + 9) =~= after@);
            }
            let name = str_trim(after);
            let n = name.unicode_len();
            if n > 2 && name.get_char(0) == '"' && name.get_char(n - 1) == '"' {
                Some(name.substring_char(1, n - 1))
            } else {
                None
            }
        },
        None => {
            proof {
                lemma_no_occurrence(cd@, "filename="@);
            }
            None
        },
    }
}

/// The kind of writer that receives the uploaded bytes.
#[derive(Clone, Copy, Debug, PartialEq, Eq, Structural)]
pub enum WriterKind {
    /// The bytes as they come (the client encrypted them).
    Basic,
    /// One file, encrypted by the server.
    Encrypted,
    /// Several files in a Zip archive, encrypted by the server.
    EncryptedZip,
}

/// What to do at the start of a file in the upload form.
pub enum FileStart {
    /// Close the current entry of the archive and start one with this name.
    NextZipEntry(String),
    /// Create an encrypted archive whose first entry has this name.
    NewZip(String),
    /// Create an encrypted file with this name and MIME type.
    NewEncrypted(String, String),
    /// Store the bytes as they come; the file name and MIME type are kept
    /// as the client sent them.
    NewBasic(Vec<u8>, Vec<u8>),
}

/// `FileStart` with the strings as sequences.
pub enum SpecFileStart {
    NextZipEntry(Seq<char>),
    NewZip(Seq<char>),
    NewEncrypted(Seq<char>, Seq<char>),
    NewBasic(Seq<u8>, Seq<u8>),
}

impl View for FileStart {
    type V = SpecFileStart;

    open spec fn view(&self) -> SpecFileStart {
        match self {
            FileStart::NextZipEntry(n) => SpecFileStart::NextZipEntry(n@),
            FileStart::NewZip(n) => SpecFileStart::NewZip(n@),
            FileStart::NewEncrypted(n, m) => SpecFileStart::NewEncrypted(n@, m@),
            FileStart::NewBasic(n, m) => SpecFileStart::NewBasic(n@, m@),
        }
    }
}

/// Why a file may not start.
#[derive(Clone, Copy, Debug, PartialEq, Eq, Structural)]
pub enum FileStartError {
    /// The Content-Disposition has no quoted file name.
    MissingFileName,
    /// The MIME type is longer than 255 bytes.
    MimeTypeTooLong,
    /// The MIME type is empty.
    MimeTypeEmpty,
    /// A file is being written and it is not an archive.
    WriterInUse,
}

/// What to do at the start of a file (see `handle_file_start`).
pub open spec fn spec_file_start(cd: Seq<char>, ct: Seq<char>, writer: Option<WriterKind>,
    server_side_processing: bool, enable_multiple_files: bool) -> Result<SpecFileStart, FileStartError> {
    match spec_file_name(cd) {
        None => Err(FileStartError::MissingFileName),
        Some(name) => if encode_utf8(ct).len() > 255 {
            Err(FileStartError::MimeTypeTooLong)
        } else if ct.len() == 0 {
            Err(FileStartError::MimeTypeEmpty)
        } else {
            match writer {
                Some(WriterKind::EncryptedZip) => Ok(SpecFileStart::NextZipEntry(name)),
                Some(_) => Err(FileStartError::WriterInUse),
                None => if server_side_processing && enable_multiple_files {
                    Ok(SpecFileStart::NewZip(name))
                } else if server_side_processing {
                    Ok(SpecFileStart::NewEncrypted(name, ct))
                } else {
                    Ok(SpecFileStart::NewBasic(encode_utf8(name), encode_utf8(ct)))
                },
            }
        },
    }
}

/// Decides what to do at the start of a file in the upload form, given its
/// Content-Disposition and Content-Type, the writer already open, and the
/// form's choices: a further entry of an open archive, a new archive, a
/// new encrypted file, or the bytes as they come.
pub fn handle_file_start(cd: &str, ct: &str, writer: Option<WriterKind>,
    server_side_processing: bool, enable_multiple_files: bool) -> (r: Result<FileStart, FileStartError>)
    ensures
        match r {
            Ok(f) => spec_file_start(cd@, ct@, writer, server_side_processing, enable_multiple_files) == Ok::<SpecFileStart, FileStartError>(f@),
            Err(e) => spec_file_start(cd@, ct@, writer, server_side_processing, enable_multiple_files) == Err::<SpecFileStart, FileStartError>(e),
        },
{
    let name = match get_file_name(cd) {
        Some(n) => n,
        None => {
            return Err(FileStartError::MissingFileName);
        },
    };
    if ct.as_bytes().len() > 255 {
        return Err(FileStartError::MimeTypeTooLong);
    } else if ct.is_empty() {
        return Err(FileStartError::MimeTypeEmpty);
    }
    match writer {
        Some(WriterKind::EncryptedZip) => Ok(FileStart::NextZipEntry(String::from_str(name))),
        Some(_) => Err(FileStartError::WriterInUse),
        None => if server_side_processing && enable_multiple_files {
            Ok(FileStart::NewZip(String::from_str(name)))
        } else if server_side_processing {
            Ok(FileStart::NewEncrypted(String::from_str(name), String::from_str(ct)))
        } else {
            Ok(FileStart::NewBasic(name.as_bytes_vec(), ct.as_bytes_vec()))
        },
    }
}


/// `SaltString::generate` with the operating system's random numbers, then
/// `PasswordHasher::hash_password` of `Argon2::default()` under that salt,
/// as the bytes of the PHC string. Claims that hashing succeeds for every
/// password of at most `argon2::MAX_PWD_LEN` (`0xFFFF_FFFF`) bytes, as
/// `Argon2::verify_inputs` checks only that and the salt's length (a
/// generated salt has 16 bytes, above `MIN_SALT_LEN`); and that
/// `PasswordVerifier::verify_password` accepts the same password against
/// the hash (`argon2_verifies`), since verifying hashes the password again
/// with the salt and parameters the string records. What the bytes are is
/// left unsaid: they depend on the random salt.
#[verifier::external_body]
fn argon2_hash_fresh_salt(password: &[u8]) -> (r: Option<Vec<u8>>)
    ensures
        password@.len() <= 0xFFFF_FFFF ==> r is Some,
        r matches Some(h) ==> argon2_verifies(h@, password@),
{
    let salt = argon2::password_hash::SaltString::generate(&mut argon2::password_hash::rand_core::OsRng);
    argon2::Argon2::default().hash_password(password, &salt).ok().map(|h| h.to_string().into_bytes())
}

/// The metadata of an upload, as written to the database.
pub struct UploadRecord {
    /// Minutes until the upload expires.
    pub time_limit_minutes: u64,
    pub file_name: String,
    pub mime_type: String,
    /// The password, where downloads need one.
    pub password: Option<String>,
    /// The number of downloads left, where it is limited.
    pub remaining_downloads: Option<i32>,
}

/// The time limit that a form gives, in minutes, no longer than `max_age`.
pub open spec fn spec_time_limit(f: FormView, max_age: u64) -> int {
    let t = f.minutes->0 + f.hours->0 * 60 + f.days->0 * 1440;
    if t < max_age {
        t
    } else {
        max_age as int
    }
}

/// The record of an upload made through the query string keeps the
/// minutes asked for: a form built by `UploadForm::new` from `minutes`
/// (split into days, hours and minutes) gives back exactly that time
/// limit whenever it is allowed.
pub proof fn lemma_time_limit_of_new_form(server_side_processing: bool, minutes: u32,
    max_downloads: Option<u32>, password: Option<Seq<char>>, max_age: u64)
    requires
        minutes <= max_age,
        minutes / 1440 <= u16::MAX,
    ensures
        spec_time_limit(spec_new_form(server_side_processing, minutes, max_downloads, password), max_age)
            == minutes,
{
    let m = minutes as int;
    let f = spec_new_form(server_side_processing, minutes, max_downloads, password);
    assert(f.days->0 as int == m / 1440);
    assert((m % 1440) / 60 < 24) by (nonlinear_arith)
        requires
            m >= 0,
    ;
    assert(f.hours->0 as int == (m % 1440) / 60);
    assert(f.minutes->0 as int == m % 60);
    assert(m == (m / 1440) * 1440 + ((m % 1440) / 60) * 60 + m % 60) by (nonlinear_arith)
        requires
            m >= 0,
    ;
}

/// A day more in a form is 1440 minutes more in the record's time limit,
/// up to the longest time allowed.
pub proof fn lemma_a_day_is_1440_minutes(f: FormView, max_age: u64)
    requires
        f.days is Some && f.days->0 < u16::MAX,
        f.hours is Some,
        f.minutes is Some,
        f.minutes->0 + f.hours->0 * 60 + (f.days->0 + 1) * 1440 < max_age,
    ensures
        spec_time_limit(FormView { days: Some((f.days->0 + 1) as u16), ..f }, max_age) == spec_time_limit(
            f,
            max_age,
        ) + 1440,
        spec_time_limit(f, max_age) == f.minutes->0 + 60 * f.hours->0 + 1440 * f.days->0,
{
}

/// Whether a form, file name and MIME type make a complete upload record:
/// a complete time limit, UTF-8 names, and a download limit wherever
/// downloads are limited.
pub open spec fn record_complete(f: FormView, file_name: Option<Seq<u8>>, mime_type: Option<Seq<u8>>) -> bool {
    &&& f.minutes is Some && f.hours is Some && f.days is Some
    &&& file_name is Some && valid_utf8(file_name->0)
    &&& mime_type is Some && valid_utf8(mime_type->0)
    &&& f.enable_max_downloads == Some(true) ==> f.max_downloads is Some
}

/// The view of an optional byte string.
pub open spec fn opt_bytes(v: Option<Vec<u8>>) -> Option<Seq<u8>> {
    match v {
        Some(b) => Some(b@),
        None => None,
    }
}

/// The metadata of an upload from its form, file name and MIME type; `None`
/// where they are incomplete (see `record_complete`). The time limit is
/// capped at `max_age_minutes`, and a download limit at `i32::MAX`.
pub fn upload_record(form: &UploadForm, file_name: Option<Vec<u8>>, mime_type: Option<Vec<u8>>,
    max_age_minutes: u64) -> (r: Option<UploadRecord>)
    ensures
        r is Some == record_complete(form@, opt_bytes(file_name), opt_bytes(mime_type)),
        r matches Some(rec) ==> {
            &&& rec.time_limit_minutes == spec_time_limit(form@, max_age_minutes)
            &&& rec.time_limit_minutes <= max_age_minutes
            &&& encode_utf8(rec.file_name@) == file_name->0@
            &&& encode_utf8(rec.mime_type@) == mime_type->0@
            &&& rec.password == (if form.enable_password == Some(true) && form.password is Some { form.password } else { None })
            &&& rec.remaining_downloads == (if form.enable_max_downloads == Some(true) {
                Some((if form.max_downloads->0 < i32::MAX { form.max_downloads->0 as int } else { i32::MAX as int }) as i32)
            } else {
                None
            })
        },
{
    let (m, h, d) = match (form.minutes, form.hours, form.days) {
        (Some(m), Some(h), Some(d)) => (m, h, d),
        _ => {
            return None;
        },
    };
    let t: u64 = (m as u64) + (h as u64) * 60 + (d as u64) * 1440;
    let time_limit_minutes = if t < max_age_minutes {
        t
    } else {
        max_age_minutes
    };
    let name = match &file_name {
        Some(b) => match crate::text::utf8_str(b.as_slice()) {
            Some(s) => String::from_str(s),
            None => {
                return None;
            },
        },
        None => {
            return None;
        },
    };
    let mime = match &mime_type {
        Some(b) => match crate::text::utf8_str(b.as_slice()) {
            Some(s) => String::from_str(s),
            None => {
                return None;
            },
        },
        None => {
            return None;
        },
    };
    let password = if form.is_password_protected() {
        match &form.password {
            Some(p) => Some(p.clone()),
            None => None,
        }
    } else {
        None
    };
    let has_download_limit = match form.enable_max_downloads {
        Some(b) => b,
        None => false,
    };
    let remaining_downloads = if has_download_limit {
        match form.max_downloads {
            Some(n) => Some(if n < 0x7fff_ffff {
                n as i32
            } else {
                0x7fff_ffffi32
            }),
            None => {
                return None;
            },
        }
    } else {
        None
    };
    Some(UploadRecord { time_limit_minutes, file_name: name, mime_type: mime, password, remaining_downloads })
}

/// The password hash stored for an upload: `Some(None)` where downloads
/// need no password, `Some(Some(h))` with the Argon2 PHC string of the
/// password under a fresh random salt, and `None` where hashing failed.
/// A stored hash lets a download through with the upload's password.
pub fn password_hash(record: &UploadRecord) -> (r: Option<Option<Vec<u8>>>)
    ensures
        record.password is None ==> r == Some(None::<Vec<u8>>),
        r matches Some(Some(h)) ==> record.password matches Some(p) && password_accepted(
            Some(encode_utf8(p@)),
            Some(h@),
        ),
        r matches Some(None) ==> record.password is None,
        record.password matches Some(p) && encode_utf8(p@).len() <= 0xFFFF_FFFF ==> r matches Some(
            Some(_),
        ),
{
    match &record.password {
        Some(p) => {
            match argon2_hash_fresh_salt(p.as_str().as_bytes()) {
                Some(h) => Some(Some(h)),
                None => None,
            }
        },
        None => Some(None),
    }
}


/// The form boundary named in a Content-Type header value, before its
/// closing quote is checked: the text after the first `=` that follows
/// the first `boundary`, trimmed.
pub open spec fn boundary_text(ct: Seq<char>) -> Option<Seq<char>> {
    match first_occurrence(ct, "boundary"@) {
        None => None,
        Some(k) => {
            let rest = ct.skip(k + 8);
            if rest.contains('=') {
                Some(trimmed(rest.skip(first_index(rest, '=') as int + 1)))
            } else {
                None
            }
        },
    }
}

/// Whether the boundary is quoted and ends with a character that is not
/// ASCII, where taking off the closing quote cuts that character (the
/// server panics there).
pub open spec fn boundary_cut_panics(ct: Seq<char>) -> bool {
    match boundary_text(ct) {
        Some(t) => t.len() >= 2 && t[0] == '"' && (t.last() as u32) >= 128,
        None => false,
    }
}

/// The form boundary named in a Content-Type header value: the boundary
/// text, with its first and last characters taken off where it starts
/// with a quote (`None` for a lone quote).
pub open spec fn spec_boundary(ct: Seq<char>) -> Option<Seq<char>> {
    match boundary_text(ct) {
        None => None,
        Some(t) => if t.len() > 0 && t[0] == '"' {
            if t.len() >= 2 {
                Some(t.subrange(1, t.len() - 1))
            } else {
                None
            }
        } else {
            Some(t)
        },
    }
}

/// The boundary text of a Content-Type header value (see `boundary_text`).
fn get_boundary_text<'a>(content_type: &'a str) -> (r: Option<&'a str>)
    ensures
        match r {
            Some(t) => boundary_text(content_type@) == Some(t@),
            None => boundary_text(content_type@) is None,
        },
{
    proof {
        reveal_strlit("boundary");
    }
    let (before, rest) = match split_once_str(content_type, "boundary") {
        Some(p) => p,
        None => {
            proof {
                lemma_no_occurrence(content_type@, "boundary"@);
            }
            return None;
        },
    };
    proof {
        lemma_first_occurrence(content_type@, "boundary"@, before@, rest@);
        assert(content_type@.skip(before@.len() as int + 8) =~= rest@);
    }
    match split_once_char(rest, '=') {
        Some((key, value)) => {
            proof {
                crate::strs::lemma_first_index_split(key@, '=', value@);
                assert(rest@.contains('=')) by {
                    assert(rest@[key@.len() as int] == '=');
                }
                assert(rest@.skip(key@.len() as int + 1) =~= value@);
            }
            Some(str_trim(value))
        },
        None => None,
    }
}

/// Whether the boundary of a Content-Type header value is quoted and ends
/// with a character that is not ASCII (see `boundary_cut_panics`).
pub fn boundary_is_cut(content_type: &str) -> (r: bool)
    ensures
        r == boundary_cut_panics(content_type@),
{
    match get_boundary_text(content_type) {
        Some(t) => {
            let n = t.unicode_len();
            n >= 2 && t.get_char(0) == '"' && (t.get_char(n - 1) as u32) >= 128
        },
        None => false,
    }
}

/// Reads the form boundary out of a Content-Type header value (see
/// `spec_boundary`).
pub fn get_boundary<'a>(content_type: &'a str) -> (r: Option<&'a str>)
    requires
        !boundary_cut_panics(content_type@),
    ensures
        match r {
            Some(b) => spec_boundary(content_type@) == Some(b@),
            None => spec_boundary(content_type@) is None,
        },
{
    let t = match get_boundary_text(content_type) {
        Some(t) => t,
        None => {
            return None;
        },
    };
    let n = t.unicode_len();
    if n > 0 && t.get_char(0) == '"' {
        if n >= 2 {
            Some(t.substring_char(1, n - 1))
        } else {
            None
        }
    } else {
        Some(t)
    }
}

/// The start that every accepted form boundary has, after `\r\n--`.
pub open spec fn expected_boundary_start() -> Seq<u8> {
    seq![13u8, 10u8] + Seq::new(23, |i: int| 45u8)
}

/// The boundary that separates the parts of the form body, `\r\n--`
/// followed by the boundary, where it is at most
/// `MAX_FORM_BOUNDARY_LENGTH` bytes long and starts with `\r\n` and 23
/// dashes (as browsers make them).
pub open spec fn spec_form_boundary(boundary: Seq<u8>) -> Option<Seq<u8>> {
    let b = seq![13u8, 10u8, 45u8, 45u8] + boundary;
    if b.len() > crate::constants::MAX_FORM_BOUNDARY_LENGTH
        || !crate::text::starts_with(b, expected_boundary_start()) {
        None
    } else {
        Some(b)
    }
}

/// The boundary of the form body for a boundary named in the headers (see
/// `spec_form_boundary`).
pub fn form_boundary(boundary: &str) -> (r: Option<Vec<u8>>)
    ensures
        match r {
            Some(b) => spec_form_boundary(boundary.spec_bytes()) == Some(b@),
            None => spec_form_boundary(boundary.spec_bytes()) is None,
        },
{
    let mut b: Vec<u8> = vec![13u8, 10u8, 45u8, 45u8];
    crate::text::append_bytes(&mut b, boundary.as_bytes());
    let mut expected: Vec<u8> = vec![13u8, 10u8];
    let mut i: usize = 0;
    while i < 23
        invariant
            i <= 23,
            expected@ == seq![13u8, 10u8] + Seq::new(i as nat, |k: int| 45u8),
        decreases 23 - i,
    {
        expected.push(45u8);
        assert(seq![13u8, 10u8] + Seq::new((i + 1) as nat, |k: int| 45u8) =~= (seq![13u8, 10u8] + Seq::new(i as nat, |k: int| 45u8)).push(45u8));
        i += 1;
    }
    if b.len() > crate::constants::MAX_FORM_BOUNDARY_LENGTH
        || !crate::text::bytes_start_with(b.as_slice(), expected.as_slice()) {
        None
    } else {
        Some(b)
    }
}

/// A WebSocket message of an upload, as far as the upload reads it.
pub enum WsMessage {
    /// Binary data of this many bytes.
    Binary(usize),
    /// A close frame; whether its code is `Normal`.
    Close(bool),
    /// Any other message, or a close without a frame.
    Other,
}

/// What to do with a WebSocket message of an upload.
#[derive(Clone, Copy, Debug, PartialEq, Eq, Structural)]
pub enum WsAction {
    /// Write the data to the file.
    Write,
    /// Check that storage is not full and the upload still exists, then
    /// write the data.
    CheckThenWrite,
    /// Flush the file: the upload is complete.
    Finish,
    /// Close the connection, and fail the upload with this error.
    CloseAndFail(UploadError),
    /// Fail the upload with this error.
    Fail(UploadError),
}

/// Read this many bytes between checks of the storage space.
pub const STORAGE_CHECK_INTERVAL: usize = 10485760;

/// Decides what to do with one message of a WebSocket upload.
/// `quota_exceeded` says whether the data would exceed the sender's quota,
/// and `read_since_check` counts the bytes read since storage was last
/// checked.
pub fn ws_step(msg: &WsMessage, quota_exceeded: bool, read_since_check: &mut usize) -> (a: WsAction)
    requires
        *old(read_since_check) <= STORAGE_CHECK_INTERVAL,
    ensures
        *final(read_since_check) <= STORAGE_CHECK_INTERVAL,
        match *msg {
            WsMessage::Binary(n) => if quota_exceeded {
                a == WsAction::Fail(UploadError::Quota) && *final(read_since_check) == *old(read_since_check)
            } else if n > 2 * crate::constants::FORM_READ_BUFFER_SIZE {
                a == WsAction::Fail(UploadError::Protocol) && *final(read_since_check) == *old(read_since_check)
            } else if *old(read_since_check) + n > STORAGE_CHECK_INTERVAL {
                a == WsAction::CheckThenWrite && *final(read_since_check) == 0
            } else {
                a == WsAction::Write && *final(read_since_check) == *old(read_since_check) + n
            },
            WsMessage::Close(normal) => *final(read_since_check) == *old(read_since_check) && if normal {
                a == WsAction::Finish
            } else {
                a == WsAction::Fail(UploadError::Cancelled)
            },
            WsMessage::Other => a == WsAction::CloseAndFail(UploadError::Protocol)
                && *final(read_since_check) == *old(read_since_check),
        },
{
    match msg {
        WsMessage::Binary(n) => {
            if quota_exceeded {
                WsAction::Fail(UploadError::Quota)
            } else if *n > 2 * crate::constants::FORM_READ_BUFFER_SIZE {
                WsAction::Fail(UploadError::Protocol)
            } else {
                let total = *read_since_check + *n;
                if total > STORAGE_CHECK_INTERVAL {
                    *read_since_check = 0;
                    WsAction::CheckThenWrite
                } else {
                    *read_since_check = total;
                    WsAction::Write
                }
            }
        },
        WsMessage::Close(normal) => if *normal {
            WsAction::Finish
        } else {
            WsAction::Fail(UploadError::Cancelled)
        },
        WsMessage::Other => WsAction::CloseAndFail(UploadError::Protocol),
    }
}


/// The form that an upload query stands for (see `UploadForm::new`).
pub open spec fn spec_new_form(server_side_processing: bool, minutes: u32, max_downloads: Option<u32>,
    password: Option<Seq<char>>) -> FormView {
    FormView {
        server_side_processing: Some(server_side_processing),
        enable_multiple_files: None,
        days: Some((minutes / 1440) as u16),
        hours: Some(((minutes % 1440) / 60) as u8),
        minutes: Some((minutes % 60) as u8),
        enable_max_downloads: if max_downloads is Some {
            Some(true)
        } else {
            None
        },
        max_downloads: max_downloads,
        enable_password: if password is Some {
            Some(true)
        } else {
            None
        },
        password: password,
    }
}

/// The form, file name and MIME type that the query string of an upload
/// gives: where it is valid and gives the minutes, the form of
/// `UploadForm::new` (with server-side processing) and its file name and
/// MIME type; otherwise an empty form and neither.
pub fn form_from_query(query: &str) -> (r: (UploadForm, Option<Vec<u8>>, Option<Vec<u8>>))
    ensures
        match spec_upload_query(query@) {
            Some(q) => if q.minutes is Some {
                &&& r.0@ == spec_new_form(true, q.minutes->0, q.max_downloads, q.password)
                &&& opt_bytes(r.1) == q.file_name
                &&& opt_bytes(r.2) == q.mime_type
            } else {
                r.0@ == empty_form() && r.1 is None && r.2 is None
            },
            None => r.0@ == empty_form() && r.1 is None && r.2 is None,
        },
{
    let values = match UploadQuery::new(query) {
        Some(q) => q.get_values(),
        None => None,
    };
    match values {
        Some((minutes, max_downloads, password, file_name, mime_type)) => {
            let form = UploadForm::new(true, minutes, max_downloads, password);
            (form, file_name, mime_type)
        },
        None => (UploadForm::default(), None, None),
    }
}

/// What a successful form upload answers.
pub enum PostResponse {
    /// The page with this link to the upload (for browsers).
    UploadLink(String),
    /// This JSON string (for other clients).
    Json(String),
}

/// Whether the record of a form upload is still to be written once the
/// form is read: the form was read whole, and no write from the query
/// string succeeded before.
pub fn needs_late_db_write(parse_success: bool, db_written: bool) -> (r: bool)
    ensures
        r == (parse_success && !db_written),
{
    parse_success && !db_written
}

/// Whether a form upload succeeded, so that it is answered with its link:
/// the form was read whole, its record written, and the upload marked
/// complete. Otherwise it is refused and removed.
pub fn upload_succeeded(parse_success: bool, db_written: bool, completed: bool) -> (r: bool)
    ensures
        r == (parse_success && db_written && completed),
{
    parse_success && db_written && completed
}

/// The answer to a successful form upload. Where the server encrypted the
/// upload, a browser gets the link `ID#KEY` (`ID?nopass#KEY` without a
/// password) and another client the JSON string `"ID#KEY"`; where the
/// client encrypted it, the JSON string `"ID"`.
pub fn post_response(upload_id: &str, key: Option<&str>, is_browser: bool, is_password_protected: bool) -> (r: PostResponse)
    ensures
        match key {
            Some(k) => if is_browser {
                r matches PostResponse::UploadLink(u) && u@ == (if is_password_protected {
                    upload_id@ + "#"@ + k@
                } else {
                    upload_id@ + "?nopass#"@ + k@
                })
            } else {
                r matches PostResponse::Json(j) && j@ == "\""@ + upload_id@ + "#"@ + k@ + "\""@
            },
            None => r matches PostResponse::Json(j) && j@ == "\""@ + upload_id@ + "\""@,
        },
{
    match key {
        Some(k) => if is_browser {
            let mut url = String::from_str(upload_id);
            if is_password_protected {
                url.append("#");
            } else {
                url.append("?nopass#");
            }
            url.append(k);
            PostResponse::UploadLink(url)
        } else {
            let mut j = String::from_str("\"");
            j.append(upload_id);
            j.append("#");
            j.append(k);
            j.append("\"");
            PostResponse::Json(j)
        },
        None => {
            let mut j = String::from_str("\"");
            j.append(upload_id);
            j.append("\"");
            PostResponse::Json(j)
        },
    }
}

} // verus!
