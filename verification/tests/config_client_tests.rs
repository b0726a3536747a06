use transpo2::client::{http_to_ws, Arg, ArgError, ArgValue, Args, UploadArgs, UploadSettings};
use transpo2::config::TranspoConfig;

fn strings(v: &[&str]) -> Vec<String> {
    v.iter().map(|s| s.to_string()).collect()
}

#[test]
fn default_configuration() {
    let c = TranspoConfig::new_default();
    assert_eq!(c.max_upload_age_minutes, 7 * 24 * 60);
    assert_eq!(c.max_upload_size_bytes, 5_000_000_000);
    assert_eq!(c.max_storage_size_bytes, 100_000_000_000);
    assert_eq!(c.port, 8123);
    assert_eq!(c.quota_bytes_total, 0);
    assert_eq!(c.quota_bytes_per_minute, 17895697);
    assert_eq!(c.read_timeout_milliseconds, 800);
    assert_eq!(c.storage_dir, "./transpo_storage");
    assert_eq!(c.db_url, "./transpo_storage/db.sqlite");
    assert_eq!(c.default_lang, "en");
    assert_eq!(c.app_name, "Transpo");
    assert!(!c.quiet);
    assert_eq!(c.max_db_pool_size, 10);
    assert_eq!(c.min_db_pool_idle, None);
}

#[test]
fn configuration_from_variables() {
    let mut c = TranspoConfig::new_default();
    let vars = vec![
        ("TRANSPO_PORT".to_string(), "9000".to_string()),
        ("TRANSPO_APP_NAME".to_string(), "Share".to_string()),
        ("TRANSPO_DB_POOL_MIN".to_string(), "2".to_string()),
        ("HOME".to_string(), "/root".to_string()),
    ];
    assert!(!c.parse_vars(&vars));
    assert_eq!(c.port, 9000);
    assert_eq!(c.app_name, "Share");
    assert_eq!(c.min_db_pool_idle, Some(2));
}

#[test]
fn configuration_from_arguments() {
    let mut c = TranspoConfig::new_default();
    let args = strings(&["transpo", "-p", "80", "-Q", "-d", "/srv", "-a", "+60", "stray", "-n"]);
    assert!(!c.parse_args(&args));
    assert_eq!(c.port, 80);
    assert!(c.quiet);
    assert_eq!(c.storage_dir, "/srv");
    assert_eq!(c.max_upload_age_minutes, 60);
    assert_eq!(c.app_name, "");
}

#[test]
fn help_stops_the_options() {
    let mut c = TranspoConfig::new_default();
    let args = strings(&["-p", "81", "-h", "-p", "82"]);
    assert!(c.parse_args(&args));
    assert_eq!(c.port, 81);
    let mut d = TranspoConfig::new_default();
    assert!(d.parse_args(&strings(&["--help"])));
}

#[test]
fn arguments_and_values() {
    let mut a = Args::new(strings(&["--file", "x", "--", "--not-a-flag", "plain"]));
    assert!(matches!(a.next_arg(), Some(Arg::Flag(f)) if f == "--file"));
    assert_eq!(a.next_value(), Some("x".to_string()));
    assert!(matches!(a.next_arg(), Some(Arg::Value(v)) if v == "--not-a-flag"));
    assert!(matches!(a.next_arg(), Some(Arg::Value(v)) if v == "plain"));
    assert!(a.next_arg().is_none());
    let mut b = Args::new(strings(&["--flag"]));
    assert_eq!(b.next_value(), None);
    assert!(matches!(b.next_arg(), Some(Arg::Flag(_))));
    let mut c = Args::new(strings(&["--"]));
    assert!(c.next_arg().is_none());
}

#[test]
fn web_socket_urls() {
    assert_eq!(http_to_ws("http://example.com"), Some("ws://example.com/upload".to_string()));
    assert_eq!(http_to_ws("https://example.com/x"), Some("wss://example.com/x/upload".to_string()));
    assert_eq!(http_to_ws("ftp://example.com"), None);
    assert_eq!(http_to_ws("example.com"), None);
    assert_eq!(http_to_ws("file.txt"), None);
}

#[test]
fn upload_settings_from_arguments() {
    let s = UploadSettings::from_args(strings(&["https://t.example", "notes.txt", "--hours", "2", "--limit", "3"]))
        .ok()
        .unwrap();
    assert_eq!(s.url, "https://t.example");
    assert_eq!(s.ws_url, "wss://t.example/upload");
    assert_eq!(s.file_path, "notes.txt");
    assert_eq!(s.mime_type, "application/octet-stream");
    assert_eq!(s.minutes, 120);
    assert_eq!(s.download_limit, Some(3));
    assert_eq!(s.password, None);
}

#[test]
fn upload_argument_errors() {
    let errors = UploadSettings::from_args(strings(&["--days", "x", "--bogus", "--minutes"])).err().unwrap();
    assert_eq!(errors.len(), 7);
    assert!(matches!(&errors[0], ArgError::ParseError(f, v) if f == "--days" && v == "x"));
    assert!(matches!(&errors[1], ArgError::InvalidOption(f) if f == "--bogus"));
    assert!(matches!(&errors[2], ArgError::RequiresValue(f) if f == "--minutes"));
    assert!(matches!(errors[3], ArgError::MissingUrl));
    assert!(matches!(errors[4], ArgError::MissingWsUrl));
    assert!(matches!(errors[5], ArgError::MissingFile));
    assert!(matches!(errors[6], ArgError::ZeroTime));
    let errors = UploadSettings::from_args(strings(&["http://a", "f", "--days", "0"])).err().unwrap();
    assert_eq!(errors.len(), 1);
    assert!(matches!(errors[0], ArgError::ZeroTime));
    let errors = UploadSettings::from_args(strings(&["http://a", "f", "g", "--days", "1", "--days", "2"])).err().unwrap();
    assert_eq!(errors.len(), 2);
    assert!(matches!(&errors[0], ArgError::Reassigned(f, Some(ArgValue::Path(n)), ArgValue::Path(o)) if f == "file" && n == "g" && o == "f"));
    assert!(matches!(&errors[1], ArgError::Reassigned(f, Some(ArgValue::Number(2)), ArgValue::Number(1)) if f == "--days"));
}

#[test]
fn upload_minutes_add_up() {
    let mut a = UploadArgs::empty();
    a.days = Some(1);
    a.hours = Some(1);
    a.minutes = Some(1);
    assert_eq!(a.minutes(), 1501);
}

#[test]
fn option_forms_agree_and_later_options_win() {
    let o = |k: &str, v: &str| (k.to_string(), v.to_string());
    let mut a = TranspoConfig::new_default();
    let mut b = TranspoConfig::new_default();
    a.parse_options(&vec![o("-p", "8080"), o("-D", "x.db"), o("--pool-min", "3")]);
    b.parse_options(&vec![o("TRANSPO_PORT", "8080"), o("TRANSPO_DATABASE_URL", "x.db"), o("TRANSPO_DB_POOL_MIN", "3")]);
    assert_eq!(a, b);
    let mut c = TranspoConfig::new_default();
    c.parse_options(&vec![o("-p", "1"), o("-n", "A"), o("TRANSPO_PORT", "2"), o("-n", "B")]);
    assert_eq!(c.port, 2);
    assert_eq!(c.app_name, "B");
}

#[test]
fn last_option_naming_a_setting_wins() {
    let o = |k: &str, v: &str| (k.to_string(), v.to_string());
    let mut c = TranspoConfig::new_default();
    let before = c.clone();
    c.parse_options(&vec![
        o("-a", "100"),
        o("-d", "one"),
        o("TRANSPO_MAX_UPLOAD_AGE_MINUTES", "200"),
        o("-u", "7"),
        o("-a", "300"),
        o("TRANSPO_STORAGE_DIRECTORY", "two"),
    ]);
    assert_eq!(c.max_upload_age_minutes, 300);
    assert_eq!(c.storage_dir, "two");
    assert_eq!(c.max_upload_size_bytes, 7);
    assert_eq!(c.port, before.port);
    assert_eq!(c.app_name, before.app_name);
}
