use transpo2::client::{progress_bar, to_decimal, upload_link, upload_request_url, UploadSettings};
use transpo2::download::read_should_wait;
use transpo2::config::TranspoConfig;
use transpo2::download::download_file_name;
use transpo2::files::fresh_key;
use transpo2::b64::base64_encode;
use transpo2::storage_limit::{StorageLimit, StorageLimitData};
use transpo2::download::parse_query;
use transpo2::translations::{sort_names, Translation, Translations};
use transpo2::upload::boundary_is_cut;

fn pairs(v: &[(&str, &str)]) -> Vec<(String, String)> {
    v.iter().map(|(a, b)| (a.to_string(), b.to_string())).collect()
}

#[test]
fn language_names_are_sorted() {
    let sorted = sort_names(pairs(&[("fr", "Français"), ("de", "Deutsch"), ("en", "English"), ("de", "Alt")]));
    assert_eq!(sorted, pairs(&[("de", "Alt"), ("de", "Deutsch"), ("en", "English"), ("fr", "Français")]));
    let mut expected = pairs(&[("zh", "中文"), ("ar", "العربية"), ("a", "x"), ("aa", "y")]);
    let got = sort_names(expected.clone());
    expected.sort();
    assert_eq!(got, expected);
    assert_eq!(sort_names(Vec::new()), Vec::<(String, String)>::new());
}

#[test]
fn invalid_options_are_found() {
    let opts = pairs(&[("-p", "80"), ("-a", "x"), ("-h", ""), ("-u", "y")]);
    assert_eq!(TranspoConfig::invalid_option(&opts), Some(1));
    let opts = pairs(&[("-p", "80"), ("-h", ""), ("-u", "y")]);
    assert_eq!(TranspoConfig::invalid_option(&opts), None);
    let opts = pairs(&[("--pool-max", "4294967296")]);
    assert_eq!(TranspoConfig::invalid_option(&opts), Some(0));
    let opts = pairs(&[("-n", "anything"), ("-l", "")]);
    assert_eq!(TranspoConfig::invalid_option(&opts), None);
    let args: Vec<String> = ["transpo", "-p", "1", "x", "-Q"].iter().map(|s| s.to_string()).collect();
    assert_eq!(TranspoConfig::args_options(&args), pairs(&[("-p", "1"), ("-Q", "")]));
}

#[test]
fn client_urls() {
    assert_eq!(to_decimal(0), "0");
    assert_eq!(to_decimal(1234567890), "1234567890");
    let s = UploadSettings {
        file_path: "f".to_string(),
        mime_type: "text/plain".to_string(),
        url: "https://t.example".to_string(),
        ws_url: "wss://t.example/upload".to_string(),
        minutes: 90,
        password: Some("a b&c".to_string()),
        download_limit: Some(2),
    };
    assert_eq!(upload_request_url(&s), "wss://t.example/upload?minutes=90&password=a%20b%26c&max-downloads=2");
    let t = UploadSettings { password: None, download_limit: None, ..s };
    assert_eq!(upload_request_url(&t), "wss://t.example/upload?minutes=90");
    assert_eq!(upload_link("https://t", "ID", false, "KEY"), "https://t/ID?nopass#KEY");
    assert_eq!(upload_link("https://t", "ID", true, "KEY"), "https://t/ID#KEY");
}

#[test]
fn url_encoding_round_trips() {
    for name in ["a b.txt", "ü/ö?&=#", "plain", ""] {
        let encoded = download_file_name(name, "", "App", "id");
        let expected = if name.is_empty() { "App_id".to_string() } else { name.to_string() };
        let q = parse_query(&format!("password={}", encoded));
        assert_eq!(q.password, Some(expected.into_bytes()));
    }
}

#[test]
fn fresh_keys_are_encoded() {
    let (key, encoded) = fresh_key();
    assert_eq!(key.len(), 32);
    assert_eq!(encoded, base64_encode(&key));
    assert_eq!(encoded.len(), 43);
    let (other, _) = fresh_key();
    assert_ne!(key, other);
}

#[test]
fn cut_boundaries_are_detected() {
    assert!(boundary_is_cut("multipart/form-data; boundary=\"ab\u{e9}"));
    assert!(!boundary_is_cut("multipart/form-data; boundary=\"abc\""));
    assert!(!boundary_is_cut("multipart/form-data; boundary=ab\u{e9}"));
    assert!(!boundary_is_cut("text/plain"));
}

#[test]
fn storage_limit_corrections() {
    let limit = StorageLimit::new(StorageLimitData::new(100, 80));
    let mut g = limit.lock();
    g.add(10);
    assert_eq!(g.size(), Some(90));
    g.reset_written();
    assert!(g.correct(50));
    assert_eq!(g.size(), Some(50));
    assert!(!g.correct(60));
    g.release();
    let unlimited = StorageLimit::unlimited();
    let mut u = unlimited.lock();
    assert!(u.check(usize::MAX));
    assert!(!u.correct(0));
    assert_eq!(u.size(), None);
    u.release();
}

#[test]
fn fallback_translations() {
    let t = Translation::new("English".to_string(), Vec::new(), Vec::new());
    let ts = Translations::from_parts(vec![("en".to_string(), t)], "en".to_string(), Vec::new());
    assert!(ts.fallback_present());
    let none = Translations::from_parts(Vec::new(), "en".to_string(), Vec::new());
    assert!(!none.fallback_present());
}

#[test]
fn progress_bars() {
    assert_eq!(progress_bar(0, 100), Some((0, 0)));
    assert_eq!(progress_bar(1, 100), Some((1, 1)));
    assert_eq!(progress_bar(50, 100), Some((50, 10)));
    assert_eq!(progress_bar(99, 100), Some((99, 20)));
    assert_eq!(progress_bar(100, 100), None);
    assert_eq!(progress_bar(5, 0), None);
}

#[test]
fn reads_wait_for_uploads_in_progress() {
    assert!(read_should_wait(0, true, 1000));
    assert!(!read_should_wait(0, true, 1001));
    assert!(!read_should_wait(1, true, 0));
    assert!(!read_should_wait(0, false, 0));
}

#[test]
fn translations_offer_their_languages_sorted() {
    let ts = Translations::from_parts(
        vec![],
        "en".to_string(),
        vec![
            ("fr".to_string(), "Français".to_string()),
            ("de".to_string(), "Deutsch".to_string()),
            ("en".to_string(), "English".to_string()),
        ],
    );
    let codes: Vec<&str> = ts.names().iter().map(|p| p.0.as_str()).collect();
    assert_eq!(codes, vec!["de", "en", "fr"]);
}
