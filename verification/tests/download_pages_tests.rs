use transpo2::concurrency::Accessor;
use transpo2::config::TranspoConfig;
use transpo2::download::{
    check_password, content_disposition, download_file_name, is_abandoned, is_id_string, parse_query,
    Upload,
};
use transpo2::pages::{
    get_lang, get_limits, lang_cookie, page_flags, path_depth, path_prefix, AboutTemplate, IndexTemplate,
    PasteTemplate,
};
use transpo2::random::{random_bytes, random_string};
use transpo2::strs::split_all;
use transpo2::client::http_to_ws;
use transpo2::upload::get_file_name;
use transpo2::pages::setting_value;
use transpo2::translations::{Translation, Translations};

#[test]
fn download_queries() {
    let key = "A".repeat(43);
    let q = parse_query(&format!("key={}&password=p%40ss&start_index=12&other=1", key));
    assert_eq!(q.crypto_key, Some(key.clone().into_bytes()));
    assert_eq!(q.password, Some(b"p@ss".to_vec()));
    assert_eq!(q.start_index, 12);
    let q = parse_query("key=short&start_index=x&password=%FF");
    assert_eq!(q.crypto_key, None);
    assert_eq!(q.password, None);
    assert_eq!(q.start_index, 0);
    let q = parse_query("");
    assert_eq!((q.crypto_key, q.password, q.start_index), (None, None, 0));
}

#[test]
fn passwords_without_hash_pass() {
    assert!(check_password(&None, &None));
    assert!(check_password(&Some(b"x".to_vec()), &None));
    assert!(!check_password(&None, &Some(b"$argon2id$...".to_vec())));
    assert!(!check_password(&Some(b"x".to_vec()), &Some(b"not a hash".to_vec())));
}

#[test]
fn names_of_downloads() {
    assert_eq!(download_file_name("a b.txt", "text/plain", "Transpo", "ID"), "a%20b.txt");
    assert_eq!(download_file_name("", "application/zip", "Transpo", "AbC-_"), "Transpo_AbC-_.zip");
    assert_eq!(download_file_name("", "text/plain", "My App", "x"), "My%20App_x.txt");
    assert_eq!(download_file_name("", "image/png", "T", "x"), "T_x");
    assert_eq!(download_file_name("é", "", "T", "x"), "%C3%A9");
    assert_eq!(content_disposition("a.txt"), "attachment; filename=\"a.txt\"");
    assert!(is_id_string("AAAAAAAAAAA"));
    assert!(!is_id_string("AAAA"));
}

#[test]
fn expiry_of_uploads() {
    let u = Upload { id: 1, password_hash: None, remaining_downloads: Some(1), expire_after: 1000, is_completed: true };
    assert!(!u.is_expired(1000));
    assert!(u.is_expired(1001));
    assert!(!u.is_expired_downloads());
    let v = Upload { remaining_downloads: Some(0), ..u };
    assert!(v.is_expired(0));
    let w = Upload { id: 2, password_hash: None, remaining_downloads: None, expire_after: 5, is_completed: false };
    assert!(!w.is_expired_downloads());
    assert!(is_abandoned(5801, 800));
    assert!(!is_abandoned(5800, 800));
}

#[test]
fn languages_of_pages() {
    assert_eq!(get_lang("lang=de&x=1", Some("lang=fr"), "en"), "de");
    assert_eq!(get_lang("x=1", Some("a=b; lang = fr "), "en"), "fr");
    assert_eq!(get_lang(" lang = es &lang=it", None, "en"), "es");
    assert_eq!(get_lang("", None, "en"), "en");
    assert_eq!(get_lang("", Some("other=1"), "en"), "en");
    assert_eq!(lang_cookie("de"), "lang=de; Path=.; SameSite=Lax");
}

#[test]
fn download_page_flags() {
    assert_eq!(page_flags(""), (true, false));
    assert_eq!(page_flags("nopass"), (false, false));
    assert_eq!(page_flags("paste&nopass"), (false, true));
    assert_eq!(page_flags("nopass=1&paste"), (true, true));
}

#[test]
fn error_page_prefixes() {
    assert_eq!(path_depth("/a/b/c"), 3);
    assert_eq!(path_depth(""), 0);
    assert_eq!(path_prefix("/a/b"), "../../");
    assert_eq!(path_prefix("x"), "");
}

fn translation(lang: &str, name: &str) -> Translation {
    Translation::new(
        name.to_string(),
        vec![("title".to_string(), format!("  {} title \n", lang))],
        vec![("title".to_string(), "fallback".to_string()), ("only".to_string(), " fb ".to_string())],
    )
}

#[test]
fn limits_on_pages() {
    let mut c = TranspoConfig::new_default();
    assert_eq!(get_limits(&c), (6, 23, 60, 5_000_000_000));
    c.max_upload_age_minutes = 1440 + 30;
    assert_eq!(get_limits(&c), (0, 23, 60, 5_000_000_000));
    c.max_upload_age_minutes = 1440;
    assert_eq!(get_limits(&c).0, 0);
    let names = vec![("en".to_string(), "English".to_string())];
    let t = translation("en", "English");
    let c = TranspoConfig::new_default();
    let page = IndexTemplate::new(&c, &names, "en", t.clone());
    assert_eq!((page.max_days, page.max_hours, page.max_minutes), (6, 23, 60));
    assert_eq!(page.app_name, "Transpo");
    let paste = PasteTemplate::new(&c, t.clone());
    assert_eq!(paste.max_upload_size, 5_000_000_000);
    let about = AboutTemplate::new(&c, t);
    assert_eq!(about.app_name, "Transpo");
}

#[test]
fn translations_with_fallback() {
    let en = translation("en", "English");
    assert_eq!(en.get("title"), "en title");
    assert_eq!(en.get("only"), "fb");
    assert_eq!(en.get("missing"), "");
    assert_eq!(en.name(), "English");
    let ts = Translations::from_parts(
        vec![("en".to_string(), en), ("de".to_string(), translation("de", "Deutsch"))],
        "en".to_string(),
        vec![("de".to_string(), "Deutsch".to_string()), ("en".to_string(), "English".to_string())],
    );
    assert_eq!(ts.get("de").get("title"), "de title");
    assert_eq!(ts.get("xx").get("title"), "en title");
    assert_eq!(ts.names().len(), 2);
}

#[test]
fn string_helpers() {
    assert_eq!(split_all("a&b&&c", '&'), vec!["a", "b", "", "c"]);
    assert_eq!(split_all("", '&'), vec![""]);
    assert_eq!(setting_value("a=1; k=v=w", ';', "k"), Some("v=w"));
    assert_eq!(setting_value("a=1; k =\u{3000} x y \t", ';', "k"), Some("x y"));
    assert_eq!(http_to_ws("http://b://c"), Some("ws://b://c/upload".to_string()));
    assert_eq!(get_file_name("form-data; filename=\u{3000}\" a.txt\" \t"), Some(" a.txt"));
    let q = parse_query("password=a%20b+c%zz%4");
    assert_eq!(q.password, Some(b"a b+c%zz%4".to_vec()));
    let q = parse_query("password=%e2%82%ac");
    assert_eq!(q.password, Some("€".as_bytes().to_vec()));
    let q = parse_query("password=%ff");
    assert_eq!(q.password, None);
}

#[test]
fn random_values() {
    let mut b = [0u8; 64];
    random_bytes(&mut b);
    let mut c = [0u8; 64];
    random_bytes(&mut c);
    assert_ne!(b, c);
    assert_eq!(random_string(&[], 3), None);
    let s = random_string(&["ab", "cd"], 4).unwrap();
    assert_eq!(s.len(), 8);
    for k in 0..4 {
        let piece = &s[2 * k..2 * k + 2];
        assert!(piece == "ab" || piece == "cd");
    }
    assert_eq!(random_string(&["x"], 0), Some(String::new()));
}

#[test]
fn accessor_counts() {
    let mut a = Accessor::new(7);
    assert_eq!(a.id, 7);
    assert!(a.is_only_accessor());
    a.add();
    assert!(!a.is_only_accessor());
    assert!(!a.remove());
    assert!(a.remove());
}
