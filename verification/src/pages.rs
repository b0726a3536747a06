//! The decisions behind the HTML pages: the language of a page, the flags
//! of a download page, the limits shown on the upload pages, and the path
//! prefix of error pages.
use vstd::prelude::*;
use vstd::string::*;
use crate::text::str_eq;
use crate::strs::{split_all, split_once_char, str_trim, trimmed, first_index, split_pieces,
    lemma_first_index_split};
use crate::config::TranspoConfig;
use crate::translations::Translation;

verus! {

/// The value of the first `name=value` setting among `pieces`, key and
/// value trimmed.
pub open spec fn find_setting(pieces: Seq<Seq<char>>, name: Seq<char>) -> Option<Seq<char>>
    decreases pieces.len(),
{
    if pieces.len() == 0 {
        None
    } else {
        let p = pieces[0];
        let i = first_index(p, '=') as int;
        if p.contains('=') && trimmed(p.take(i)) == name {
            Some(trimmed(p.skip(i + 1)))
        } else {
            find_setting(pieces.drop_first(), name)
        }
    }
}

/// The value of the first setting named `name` in `s`, whose settings are
/// separated by `sep` (see `find_setting`).
pub fn setting_value<'a>(s: &'a str, sep: char, name: &str) -> (r: Option<&'a str>)
    ensures
        match r {
            Some(v) => find_setting(split_pieces(s@, sep), name@) == Some(v@),
            None => find_setting(split_pieces(s@, sep), name@) is None,
        },
{
    let pieces = split_all(s, sep);
    let ghost pv = pieces@.map_values(|p: &str| p@);
    proof {
        assert(pv.skip(0) =~= pv);
    }
    let mut i: usize = 0;
    while i < pieces.len()
        invariant
            i <= pieces@.len(),
            pv == pieces@.map_values(|p: &str| p@),
            pv == split_pieces(s@, sep),
            find_setting(pv, name@) == find_setting(pv.skip(i as int), name@),
        decreases pieces@.len() - i,
    {
        let p = pieces[i];
        let ghost rest = pv.skip(i as int);
        assert(rest[0] == p@);
        assert(rest.drop_first() =~= pv.skip(i + 1));
        match split_once_char(p, '=') {
            Some((key, value)) => {
                proof {
                    let f = p@;
                    assert(f.contains('=')) by {
                        assert(f[key@.len() as int] == '=');
                    }
                    lemma_first_index_split(key@, '=', value@);
                    assert(f.take(key@.len() as int) =~= key@);
                    assert(f.skip(key@.len() as int + 1) =~= value@);
                }
                if str_eq(str_trim(key), name) {
                    return Some(str_trim(value));
                }
            },
            None => {},
        }
        i += 1;
    }
    assert(pv.skip(i as int) =~= Seq::<Seq<char>>::empty());
    None
}

/// The language of a page: the `lang` setting of the query string, else
/// that of the `Cookie` header, else the default language.
pub open spec fn spec_lang(query: Seq<char>, cookie: Option<Seq<char>>, default_lang: Seq<char>) -> Seq<char> {
    match find_setting(split_pieces(query, '&'), "lang"@) {
        Some(l) => l,
        None => match cookie {
            Some(c) => match find_setting(split_pieces(c, ';'), "lang"@) {
                Some(l) => l,
                None => default_lang,
            },
            None => default_lang,
        },
    }
}

/// The language of a page (see `spec_lang`), from the query string, the
/// `Cookie` header if any, and the default language.
pub fn get_lang(query: &str, cookie: Option<&str>, default_lang: &str) -> (r: String)
    ensures
        r@ == spec_lang(query@, match cookie {
            Some(c) => Some(c@),
            None => None,
        }, default_lang@),
{
    if let Some(l) = setting_value(query, '&', "lang") {
        return String::from_str(l);
    }
    if let Some(c) = cookie {
        if let Some(l) = setting_value(c, ';', "lang") {
            return String::from_str(l);
        }
    }
    String::from_str(default_lang)
}

/// The `Set-Cookie` header value that keeps the language of the pages.
pub fn lang_cookie(lang: &str) -> (r: String)
    ensures
        r@ == "lang="@ + lang@ + "; Path=.; SameSite=Lax"@,
{
    let mut r = String::from_str("lang=");
    r.append(lang);
    r.append("; Path=.; SameSite=Lax");
    r
}

/// The flags of a download page's query string: whether the download
/// needs a password (unless a field is `nopass`) and whether it is a paste
/// (where a field is `paste`).
pub fn page_flags(query: &str) -> (r: (bool, bool))
    ensures
        r.0 == !split_pieces(query@, '&').contains("nopass"@),
        r.1 == split_pieces(query@, '&').contains("paste"@),
{
    let fields = split_all(query, '&');
    let ghost fv = fields@.map_values(|p: &str| p@);
    let mut has_password = true;
    let mut is_paste = false;
    let mut i: usize = 0;
    while i < fields.len()
        invariant
            i <= fields@.len(),
            fv == fields@.map_values(|p: &str| p@),
            fv == split_pieces(query@, '&'),
            has_password == !fv.take(i as int).contains("nopass"@),
            is_paste == fv.take(i as int).contains("paste"@),
        decreases fields@.len() - i,
    {
        let f = fields[i];
        assert(fv[i as int] == f@);
        assert(fv.take(i + 1) =~= fv.take(i as int).push(f@));
        if str_eq(f, "nopass") {
            has_password = false;
        }
        if str_eq(f, "paste") {
            is_paste = true;
        }
        proof {
            let t = fv.take(i as int);
            let t1 = fv.take(i + 1);
            if t.contains("nopass"@) {
                let k = choose|k: int| 0 <= k < t.len() && t[k] == "nopass"@;
                assert(t1[k] == "nopass"@);
            }
            if t.contains("paste"@) {
                let k = choose|k: int| 0 <= k < t.len() && t[k] == "paste"@;
                assert(t1[k] == "paste"@);
            }
            if t1.contains("nopass"@) && f@ != "nopass"@ {
                let k = choose|k: int| 0 <= k < t1.len() && t1[k] == "nopass"@;
                assert(t[k] == "nopass"@);
            }
            if t1.contains("paste"@) && f@ != "paste"@ {
                let k = choose|k: int| 0 <= k < t1.len() && t1[k] == "paste"@;
                assert(t[k] == "paste"@);
            }
            if f@ == "nopass"@ {
                assert(t1[i as int] == "nopass"@);
            }
            if f@ == "paste"@ {
                assert(t1[i as int] == "paste"@);
            }
        }
        i += 1;
    }
    assert(fv.take(i as int) =~= fv);
    (has_password, is_paste)
}

/// The number of `/` in a path.
pub open spec fn slash_count(b: Seq<u8>) -> nat
    decreases b.len(),
{
    if b.len() == 0 {
        0
    } else {
        slash_count(b.drop_last()) + if b.last() == 47 {
            1nat
        } else {
            0nat
        }
    }
}

/// The depth of a request path: its number of `/`.
pub fn path_depth(path: &str) -> (d: usize)
    ensures
        d == slash_count(path.spec_bytes()),
{
    let b = path.as_bytes();
    let mut depth: usize = 0;
    let mut i: usize = 0;
    while i < b.len()
        invariant
            i <= b@.len(),
            b@ == path.spec_bytes(),
            depth == slash_count(b@.take(i as int)),
            depth <= i,
        decreases b@.len() - i,
    {
        assert(b@.take(i + 1).drop_last() =~= b@.take(i as int));
        if b[i] == 47 {
            depth += 1;
        }
        i += 1;
    }
    assert(b@.take(i as int) =~= b@);
    depth
}

/// `n` copies of `../`.
pub open spec fn parent_dirs(n: nat) -> Seq<char>
    decreases n,
{
    if n == 0 {
        Seq::empty()
    } else {
        parent_dirs((n - 1) as nat) + "../"@
    }
}

/// The prefix that leads from a request path back to the root: one `../`
/// per `/` in the path.
pub fn path_prefix(path: &str) -> (r: String)
    ensures
        r@ == parent_dirs(slash_count(path.spec_bytes())),
{
    let d = path_depth(path);
    let mut r = String::new();
    let mut i: usize = 0;
    while i < d
        invariant
            i <= d,
            r@ == parent_dirs(i as nat),
        decreases d - i,
    {
        r.append("../");
        i += 1;
    }
    r
}

/// The limits shown on the upload pages, for uploads kept at most
/// `max_age` minutes: the largest number of days, of hours and of minutes
/// that may be chosen. They are computed for a maximum age of one day or
/// more: below, the count of days minus one underflows.
pub open spec fn spec_limits(max_age: u64) -> (int, int, int) {
    let days = max_age / 1440 - 1;
    let hours = if days > 0 {
        23
    } else {
        max_age / 60 - 1
    };
    let minutes = if hours > 1 {
        60
    } else {
        max_age as int
    };
    (days, hours, minutes)
}

/// The limits shown on the upload pages (see `spec_limits`), with the
/// largest upload size.
pub fn get_limits(config: &TranspoConfig) -> (r: (u64, u64, u64, u64))
    requires
        config.max_upload_age_minutes >= 1440,
    ensures
        r.0 == spec_limits(config.max_upload_age_minutes).0,
        r.1 == spec_limits(config.max_upload_age_minutes).1,
        r.2 == spec_limits(config.max_upload_age_minutes).2,
        r.3 == config.max_upload_size_bytes,
{
    let age = config.max_upload_age_minutes;
    let max_days = age / (24 * 60) - 1;
    let max_hours = if max_days > 0 {
        23
    } else {
        age / 60 - 1
    };
    let max_minutes = if max_hours > 1 {
        60
    } else {
        age
    };
    (max_days, max_hours, max_minutes, config.max_upload_size_bytes)
}

/// The values of the upload page.
pub struct IndexTemplate<'a> {
    pub app_name: &'a String,
    pub selected_lang: &'a str,
    pub lang_names: &'a [(String, String)],
    pub max_days: u64,
    pub max_hours: u64,
    pub max_minutes: u64,
    pub max_upload_size: u64,
    pub t: Translation,
}

impl<'a> IndexTemplate<'a> {
    /// The upload page for a configuration, the languages offered, the
    /// language chosen and its translation.
    pub fn new(config: &'a TranspoConfig, lang_names: &'a [(String, String)], selected_lang: &'a str,
        translation: Translation) -> (r: Self)
        requires
            config.max_upload_age_minutes >= 1440,
        ensures
            r.app_name == &config.app_name,
            r.selected_lang == selected_lang,
            r.lang_names == lang_names,
            r.max_days == spec_limits(config.max_upload_age_minutes).0,
            r.max_hours == spec_limits(config.max_upload_age_minutes).1,
            r.max_minutes == spec_limits(config.max_upload_age_minutes).2,
            r.max_upload_size == config.max_upload_size_bytes,
            r.t == translation,
    {
        let (max_days, max_hours, max_minutes, max_upload_size) = get_limits(config);
        IndexTemplate {
            app_name: &config.app_name,
            selected_lang,
            lang_names,
            max_days,
            max_hours,
            max_minutes,
            max_upload_size,
            t: translation,
        }
    }
}

/// The values of the paste page.
pub struct PasteTemplate<'a> {
    pub app_name: &'a String,
    pub max_days: u64,
    pub max_hours: u64,
    pub max_minutes: u64,
    pub max_upload_size: u64,
    pub t: Translation,
}

impl<'a> PasteTemplate<'a> {
    /// The paste page for a configuration and a translation.
    pub fn new(config: &'a TranspoConfig, translation: Translation) -> (r: Self)
        requires
            config.max_upload_age_minutes >= 1440,
        ensures
            r.app_name == &config.app_name,
            r.max_days == spec_limits(config.max_upload_age_minutes).0,
            r.max_hours == spec_limits(config.max_upload_age_minutes).1,
            r.max_minutes == spec_limits(config.max_upload_age_minutes).2,
            r.max_upload_size == config.max_upload_size_bytes,
            r.t == translation,
    {
        let (max_days, max_hours, max_minutes, max_upload_size) = get_limits(config);
        PasteTemplate { app_name: &config.app_name, max_days, max_hours, max_minutes, max_upload_size, t: translation }
    }
}

/// The values of the page that shows the link to an upload.
pub struct UploadLinkTemplate {
    pub app_name: String,
    pub upload_url: String,
    pub upload_id: String,
    pub t: Translation,
}

/// The values of the about page.
pub struct AboutTemplate<'a> {
    pub app_name: &'a String,
    pub t: Translation,
}

impl<'a> AboutTemplate<'a> {
    /// The about page for a configuration and a translation.
    pub fn new(config: &'a TranspoConfig, translation: Translation) -> (r: Self)
        ensures
            r.app_name == &config.app_name,
            r.t == translation,
    {
        AboutTemplate { app_name: &config.app_name, t: translation }
    }
}

/// The values of the download page.
pub struct DownloadTemplate<'a> {
    pub file_id: String,
    pub app_name: &'a String,
    pub has_password: bool,
    pub t: Translation,
}

/// The values of an error page.
pub struct ErrorTemplate<'a> {
    pub error_code: usize,
    pub app_name: &'a String,
    pub path_prefix: String,
    pub t: Translation,
}

} // verus!
