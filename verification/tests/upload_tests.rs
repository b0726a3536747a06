use transpo2::form_parser::{FormError, FormEvent, FormParser};
use transpo2::upload::{
    form_boundary, form_from_query, get_boundary, get_file_name, handle_file_start,
    match_content_disposition, post_response, upload_record, ws_step, FileStart, FileStartError,
    FormField, PostResponse, UploadError, UploadForm, UploadQuery, WriterKind, WsAction, WsMessage,
    STORAGE_CHECK_INTERVAL, password_hash, UploadRecord, needs_late_db_write, upload_succeeded,
};
use transpo2::download::check_password;

#[test]
fn upload_error_codes_round_trip() {
    let all = [
        UploadError::FileSize,
        UploadError::Quota,
        UploadError::Storage,
        UploadError::Protocol,
        UploadError::Cancelled,
        UploadError::Other,
    ];
    let codes: Vec<u8> = all.iter().map(|e| e.code()).collect();
    assert_eq!(codes, vec![1, 2, 3, 4, 5, 0]);
    for e in all.iter() {
        assert_eq!(UploadError::from_code(e.code()), *e);
    }
    assert_eq!(UploadError::from_code(200), UploadError::Other);
}

#[test]
fn upload_query_reads_all_keys() {
    let q = UploadQuery::new("minutes=90&password=a%20b&max-downloads=3&file-name=f.txt&mime-type=text/plain")
        .unwrap();
    assert_eq!(q.minutes, Some(90));
    assert_eq!(q.password.as_deref(), Some("a b"));
    assert_eq!(q.max_downloads, Some(3));
    assert_eq!(q.file_name, Some(b"f.txt".to_vec()));
    assert_eq!(q.mime_type, Some(b"text/plain".to_vec()));
    assert!(q.is_key_defined("minutes"));
    assert!(!q.is_key_defined("other"));
    let (m, d, p, f, t) = q.get_values().unwrap();
    assert_eq!((m, d), (90, Some(3)));
    assert_eq!(p.as_deref(), Some("a b"));
    assert_eq!(f, Some(b"f.txt".to_vec()));
    assert_eq!(t, Some(b"text/plain".to_vec()));
}

#[test]
fn upload_query_refusals() {
    assert!(UploadQuery::new("minutes=1&minutes=2").is_none());
    assert!(UploadQuery::new("unknown=1").is_none());
    assert!(UploadQuery::new("minutes=x").is_none());
    assert!(UploadQuery::new("minutes=4294967296").is_none());
    assert!(UploadQuery::new("password=%FF").is_none());
    let long = format!("file-name={}", "a".repeat(4097));
    assert!(UploadQuery::new(&long).is_none());
    let ok = format!("file-name={}", "a".repeat(4096));
    assert!(UploadQuery::new(&ok).is_some());
    // fields without `=` are ignored; without minutes there are no values
    let q = UploadQuery::new("nothing&file-name=x").unwrap();
    assert_eq!(q.file_name, Some(b"x".to_vec()));
    assert!(q.get_values().is_none());
    assert!(UploadQuery::new("").unwrap().get_values().is_none());
}

#[test]
fn content_disposition_fields() {
    assert_eq!(match_content_disposition("form-data; name=\"files\"; filename=\"a.txt\""), FormField::Files);
    assert_eq!(match_content_disposition("form-data; name=\"days\""), FormField::Days);
    assert_eq!(match_content_disposition("form-data; name=\"password\""), FormField::Password);
    assert_eq!(
        match_content_disposition("form-data; name=\"server-side-processing\""),
        FormField::ServerSideProcessing
    );
    assert_eq!(match_content_disposition("form-data; name=\"days\" "), FormField::Invalid);
    assert_eq!(match_content_disposition("form-data; name=\"other\""), FormField::Invalid);
}

#[test]
fn upload_form_new_splits_minutes() {
    let f = UploadForm::new(true, 1441 + 60 * 2, Some(5), Some("pw".to_string()));
    assert_eq!(f.server_side_processing, Some(true));
    assert_eq!(f.days, Some(1));
    assert_eq!(f.hours, Some(2));
    assert_eq!(f.minutes, Some(1));
    assert_eq!(f.enable_max_downloads, Some(true));
    assert_eq!(f.max_downloads, Some(5));
    assert!(f.is_password_protected());
    assert!(f.has_time_limit());
    let g = UploadForm::new(false, 59, None, None);
    assert_eq!((g.days, g.hours, g.minutes), (Some(0), Some(0), Some(59)));
    assert_eq!(g.enable_max_downloads, None);
    assert!(!g.is_password_protected());
}

#[test]
fn upload_form_fields() {
    let mut f = UploadForm::default();
    assert!(!f.has_time_limit());
    assert!(f.is_valid_field(&FormField::Days));
    assert!(!f.is_valid_field(&FormField::Files));
    assert!(f.parse_field(&FormField::Days, b"3"));
    assert!(!f.parse_field(&FormField::Days, b"4"));
    assert_eq!(f.days, Some(3));
    assert!(!f.parse_field(&FormField::Hours, b"256"));
    assert_eq!(f.hours, None);
    assert!(f.parse_field(&FormField::Hours, b"23"));
    assert!(!f.parse_field(&FormField::Minutes, &[0xff]));
    assert!(f.parse_field(&FormField::Minutes, b"+5"));
    assert_eq!(f.minutes, Some(5));
    assert!(f.parse_field(&FormField::EnablePassword, b"on"));
    assert!(f.parse_field(&FormField::ServerSideProcessing, b"off"));
    assert_eq!(f.server_side_processing, Some(false));
    assert!(f.parse_field(&FormField::Password, "pässword".as_bytes()));
    assert_eq!(f.password.as_deref(), Some("pässword"));
    assert!(f.is_password_protected());
    assert!(f.has_time_limit());
    assert!(!f.parse_field(&FormField::Invalid, b"x"));
    let mut opt = None;
    assert!(UploadForm::parse_bool_value("on", &mut opt));
    assert!(!UploadForm::parse_bool_value("on", &mut opt));
    let mut n = None;
    assert!(!UploadForm::parse_from_str("12a", 100, &mut n));
    assert!(UploadForm::parse_from_str("12", 100, &mut n));
    assert_eq!(n, Some(12));
    let mut s = None;
    assert!(UploadForm::parse_string_value("x", &mut s));
    assert!(!UploadForm::parse_string_value("y", &mut s));
    assert_eq!(s.as_deref(), Some("x"));
}

#[test]
fn file_names_in_content_disposition() {
    assert_eq!(get_file_name("form-data; name=\"files\"; filename=\"a b.txt\""), Some("a b.txt"));
    assert_eq!(get_file_name("form-data; filename=  \"x\"  "), Some("x"));
    assert_eq!(get_file_name("form-data; filename=\"\""), None);
    assert_eq!(get_file_name("form-data; filename=abc"), None);
    assert_eq!(get_file_name("form-data; name=\"files\""), None);
    assert_eq!(get_file_name("filename=\"é\""), Some("é"));
}

#[test]
fn file_start_plans() {
    let cd = "form-data; name=\"files\"; filename=\"a.txt\"";
    match handle_file_start(cd, "text/plain", None, true, true) {
        Ok(FileStart::NewZip(n)) => assert_eq!(n, "a.txt"),
        _ => panic!("expected a new archive"),
    }
    match handle_file_start(cd, "text/plain", None, true, false) {
        Ok(FileStart::NewEncrypted(n, m)) => assert_eq!((n.as_str(), m.as_str()), ("a.txt", "text/plain")),
        _ => panic!("expected a new encrypted file"),
    }
    match handle_file_start(cd, "text/plain", None, false, true) {
        Ok(FileStart::NewBasic(n, m)) => assert_eq!((n, m), (b"a.txt".to_vec(), b"text/plain".to_vec())),
        _ => panic!("expected a plain file"),
    }
    match handle_file_start(cd, "text/plain", Some(WriterKind::EncryptedZip), true, true) {
        Ok(FileStart::NextZipEntry(n)) => assert_eq!(n, "a.txt"),
        _ => panic!("expected a further entry"),
    }
    assert!(matches!(
        handle_file_start(cd, "text/plain", Some(WriterKind::Encrypted), true, false),
        Err(FileStartError::WriterInUse)
    ));
    assert!(matches!(
        handle_file_start("form-data; name=\"files\"", "text/plain", None, true, false),
        Err(FileStartError::MissingFileName)
    ));
    assert!(matches!(handle_file_start(cd, "", None, true, false), Err(FileStartError::MimeTypeEmpty)));
    let long = "a".repeat(256);
    assert!(matches!(handle_file_start(cd, &long, None, true, false), Err(FileStartError::MimeTypeTooLong)));
}

#[test]
fn boundaries_from_headers() {
    let ct = "multipart/form-data; boundary=---------------------------1234";
    assert_eq!(get_boundary(ct), Some("---------------------------1234"));
    assert_eq!(get_boundary("multipart/form-data; boundary= \"abc\" "), Some("abc"));
    assert_eq!(get_boundary("multipart/form-data; boundary=\""), None);
    assert_eq!(get_boundary("multipart/form-data"), None);
    assert_eq!(get_boundary("multipart/form-data; boundary"), None);
    let b = form_boundary("---------------------------1234").unwrap();
    assert_eq!(b, b"\r\n-----------------------------1234".to_vec());
    assert!(form_boundary("abc").is_none());
    assert!(form_boundary(&format!("---------------------{}", "x".repeat(60))).is_none());
}

#[test]
fn records_from_forms() {
    let mut f = UploadForm::new(true, 100, Some(7), Some("pw".to_string()));
    let r = upload_record(&f, Some(b"a.txt".to_vec()), Some(b"text/plain".to_vec()), 60).unwrap();
    assert_eq!(r.time_limit_minutes, 60);
    assert_eq!(r.file_name, "a.txt");
    assert_eq!(r.mime_type, "text/plain");
    assert_eq!(r.password.as_deref(), Some("pw"));
    assert_eq!(r.remaining_downloads, Some(7));
    let r2 = upload_record(&f, Some(b"a".to_vec()), Some(b"b".to_vec()), 1000).unwrap();
    assert_eq!(r2.time_limit_minutes, 100);
    assert!(upload_record(&f, None, Some(b"b".to_vec()), 1000).is_none());
    assert!(upload_record(&f, Some(vec![0xff]), Some(b"b".to_vec()), 1000).is_none());
    f.max_downloads = Some(u32::MAX);
    let r3 = upload_record(&f, Some(b"a".to_vec()), Some(b"b".to_vec()), 1000).unwrap();
    assert_eq!(r3.remaining_downloads, Some(i32::MAX));
    f.max_downloads = None;
    assert!(upload_record(&f, Some(b"a".to_vec()), Some(b"b".to_vec()), 1000).is_none());
    assert!(upload_record(&UploadForm::default(), Some(b"a".to_vec()), Some(b"b".to_vec()), 10).is_none());
}

#[test]
fn websocket_steps() {
    let mut n = 0usize;
    assert_eq!(ws_step(&WsMessage::Binary(100), false, &mut n), WsAction::Write);
    assert_eq!(n, 100);
    assert_eq!(ws_step(&WsMessage::Binary(100), true, &mut n), WsAction::Fail(UploadError::Quota));
    assert_eq!(ws_step(&WsMessage::Binary(20481), false, &mut n), WsAction::Fail(UploadError::Protocol));
    let mut m = STORAGE_CHECK_INTERVAL - 10;
    assert_eq!(ws_step(&WsMessage::Binary(20), false, &mut m), WsAction::CheckThenWrite);
    assert_eq!(m, 0);
    assert_eq!(ws_step(&WsMessage::Close(true), false, &mut m), WsAction::Finish);
    assert_eq!(ws_step(&WsMessage::Close(false), false, &mut m), WsAction::Fail(UploadError::Cancelled));
    assert_eq!(ws_step(&WsMessage::Other, false, &mut m), WsAction::CloseAndFail(UploadError::Protocol));
}

#[test]
fn responses_to_posts() {
    match post_response("ID", Some("KEY"), true, false) {
        PostResponse::UploadLink(u) => assert_eq!(u, "ID?nopass#KEY"),
        _ => panic!(),
    }
    match post_response("ID", Some("KEY"), true, true) {
        PostResponse::UploadLink(u) => assert_eq!(u, "ID#KEY"),
        _ => panic!(),
    }
    match post_response("ID", Some("KEY"), false, true) {
        PostResponse::Json(j) => assert_eq!(j, "\"ID#KEY\""),
        _ => panic!(),
    }
    match post_response("ID", None, true, true) {
        PostResponse::Json(j) => assert_eq!(j, "\"ID\""),
        _ => panic!(),
    }
}

#[test]
fn forms_from_queries() {
    let (f, n, m) = form_from_query("minutes=61&file-name=x&mime-type=y");
    assert_eq!((f.days, f.hours, f.minutes), (Some(0), Some(1), Some(1)));
    assert_eq!(f.server_side_processing, Some(true));
    assert_eq!((n, m), (Some(b"x".to_vec()), Some(b"y".to_vec())));
    let (g, n2, m2) = form_from_query("file-name=x");
    assert!(!g.has_time_limit());
    assert_eq!((n2, m2), (None, None));
}

const BOUNDARY: &str = "---------------------------9051914041544843365972754266";

fn body(parts: &[(&str, Option<&str>, &[u8])]) -> Vec<u8> {
    let mut b = Vec::new();
    for (cd, ct, value) in parts {
        b.extend_from_slice(format!("--{}\r\nContent-Disposition: {}\r\n", BOUNDARY, cd).as_bytes());
        if let Some(ct) = ct {
            b.extend_from_slice(format!("Content-Type: {}\r\n", ct).as_bytes());
        }
        b.extend_from_slice(b"\r\n");
        b.extend_from_slice(value);
        b.extend_from_slice(b"\r\n");
    }
    b.extend_from_slice(format!("--{}--\r\n", BOUNDARY).as_bytes());
    b
}

/// Runs a parser over a body, fed `chunk` bytes at a time; returns the
/// events other than reads and steps, the file contents and the form.
fn run(body: &[u8], chunk: usize) -> (Vec<String>, Vec<u8>, UploadForm) {
    let boundary = form_boundary(get_boundary(&format!("multipart/form-data; boundary={}", BOUNDARY)).unwrap()).unwrap();
    let mut p = FormParser::new(boundary, UploadForm::default());
    let mut events = Vec::new();
    let mut file = Vec::new();
    let mut pos = 0;
    loop {
        match p.next() {
            FormEvent::Read => {
                if pos >= body.len() {
                    events.push("eof".to_string());
                    break;
                }
                let n = chunk.min(p.free_space()).min(body.len() - pos);
                p.feed(&body[pos..pos + n]);
                pos += n;
            },
            FormEvent::Next => {},
            FormEvent::Write(b) => file.extend_from_slice(&b),
            FormEvent::StartFile(plan, b) => {
                events.push(match plan {
                    FileStart::NewBasic(n, m) => format!("basic {} {}", String::from_utf8(n).unwrap(), String::from_utf8(m).unwrap()),
                    FileStart::NewEncrypted(n, m) => format!("encrypted {} {}", n, m),
                    FileStart::NewZip(n) => format!("zip {}", n),
                    FileStart::NextZipEntry(n) => format!("entry {}", n),
                });
                file.extend_from_slice(&b);
            },
            FormEvent::Finished(ok) => {
                events.push(format!("finished {}", ok));
                break;
            },
            FormEvent::Failed(e) => {
                events.push(format!("failed {:?}", e));
                break;
            },
        }
    }
    (events, file, p.into_form())
}

#[test]
fn form_parser_reads_a_browser_upload() {
    let contents: Vec<u8> = (0..30000u32).map(|i| (i % 251) as u8).collect();
    let b = body(&[
        ("form-data; name=\"server-side-processing\"", None, b"on"),
        ("form-data; name=\"days\"", None, b"1"),
        ("form-data; name=\"hours\"", None, b"2"),
        ("form-data; name=\"minutes\"", None, b"3"),
        ("form-data; name=\"files\"; filename=\"data.bin\"", Some("application/octet-stream"), &contents),
    ]);
    for chunk in [4096usize, 10000, 100000] {
        let (events, file, form) = run(&b, chunk);
        assert_eq!(events, vec!["encrypted data.bin application/octet-stream".to_string(), "finished true".to_string()]);
        assert_eq!(file, contents);
        assert_eq!(form.server_side_processing, Some(true));
        assert_eq!((form.days, form.hours, form.minutes), (Some(1), Some(2), Some(3)));
    }
}

#[test]
fn form_parser_waits_when_a_read_ends_after_the_headers() {
    // A part whose headers end exactly where the buffer ends has no value
    // yet: the parser asks for another read, then goes on.
    let b = body(&[("form-data; name=\"days\"", None, b"1")]);
    let header_end = b.windows(4).position(|w| w == b"\r\n\r\n").unwrap() + 4;
    let boundary = form_boundary(BOUNDARY).unwrap();
    let mut p = FormParser::new(boundary, UploadForm::default());
    assert!(matches!(p.next(), FormEvent::Read));
    p.feed(&b[..header_end]);
    assert!(matches!(p.next(), FormEvent::Read));
    p.feed(&b[header_end..]);
    let mut finished = None;
    for _ in 0..10 {
        match p.next() {
            FormEvent::Next => {},
            FormEvent::Finished(ok) => {
                finished = Some(ok);
                break;
            },
            _ => panic!("unexpected event"),
        }
    }
    assert_eq!(finished, Some(true));
    assert_eq!(p.into_form().days, Some(1));
}

#[test]
fn form_parser_multiple_files_and_last_field() {
    let b = body(&[
        ("form-data; name=\"server-side-processing\"", None, b"on"),
        ("form-data; name=\"enable-multiple-files\"", None, b"on"),
        ("form-data; name=\"files\"; filename=\"a\"", Some("text/plain"), b"AAA"),
        ("form-data; name=\"files\"; filename=\"b\"", Some("text/plain"), b"BB"),
        ("form-data; name=\"password\"", None, b"secret"),
    ]);
    let (events, file, form) = run(&b, 4096);
    assert_eq!(events, vec!["zip a".to_string(), "entry b".to_string(), "finished true".to_string()]);
    assert_eq!(file, b"AAABB".to_vec());
    assert_eq!(form.password.as_deref(), Some("secret"));
}

#[test]
fn form_parser_refusals() {
    let b = body(&[("form-data; name=\"bogus\"", None, b"1")]);
    assert_eq!(run(&b, 50).0, vec![format!("failed {:?}", FormError::FieldType)]);
    let b = body(&[("form-data; name=\"days\"", None, b"1"), ("form-data; name=\"days\"", None, b"2")]);
    assert_eq!(run(&b, 50).0, vec![format!("failed {:?}", FormError::FieldValue)]);
    let b = body(&[("form-data; name=\"days\"", None, b"x"), ("form-data; name=\"hours\"", None, b"2")]);
    assert_eq!(run(&b, 50).0, vec![format!("failed {:?}", FormError::FieldValue)]);
    let big = vec![b'1'; 5000];
    let b = body(&[("form-data; name=\"password\"", None, &big)]);
    assert_eq!(run(&b, 100000).0, vec![format!("failed {:?}", FormError::FieldValue)]);
    assert_eq!(run(&b, 100).0, vec![format!("failed {:?}", FormError::FieldTooBig)]);
    let b = body(&[
        ("form-data; name=\"files\"; filename=\"a\"", Some("text/plain"), b"A"),
        ("form-data; name=\"files\"; filename=\"b\"", Some("text/plain"), b"B"),
    ]);
    assert_eq!(
        run(&b, 100).0,
        vec!["basic a text/plain".to_string(), format!("failed {:?}", FormError::FileStart(FileStartError::WriterInUse))]
    );
    let (events, _, _) = run("garbage ".repeat(10).as_bytes(), 100);
    assert_eq!(events, vec![format!("failed {:?}", FormError::FieldType)]);
    let bad = format!("--{}XY\r\nContent-Disposition: form-data; name=\"days\"\r\n\r\n1\r\n", BOUNDARY);
    let (events, _, _) = run(bad.as_bytes(), 100);
    assert_eq!(events, vec![format!("failed {:?}", FormError::Malformed)]);
    // a body that ends before the closing boundary asks for more
    let b = body(&[("form-data; name=\"days\"", None, b"1")]);
    let cut = &b[..b.len() - 10];
    assert_eq!(run(cut, 100).0, vec!["eof".to_string()]);
    // the last field is refused: the form is not accepted
    let b = body(&[("form-data; name=\"days\"", None, b"x")]);
    assert_eq!(run(&b, 100).0, vec!["finished false".to_string()]);
    // a form with no field is not accepted
    let b = format!("--{}--\r\n", BOUNDARY).into_bytes();
    assert_eq!(run(&b, 100).0, vec!["finished false".to_string()]);
}

#[test]
fn stored_password_opens_the_download() {
    let record = UploadRecord {
        time_limit_minutes: 10,
        file_name: "a.txt".to_string(),
        mime_type: "text/plain".to_string(),
        password: Some("hunter2".to_string()),
        remaining_downloads: None,
    };
    let hash = password_hash(&record).expect("hashing").expect("a hash");
    assert!(hash.starts_with(b"$argon2id$"));
    assert!(check_password(&Some(b"hunter2".to_vec()), &Some(hash.clone())));
    assert!(!check_password(&Some(b"hunter3".to_vec()), &Some(hash.clone())));
    assert!(!check_password(&None, &Some(hash)));
    let open = UploadRecord { password: None, ..record };
    assert_eq!(password_hash(&open), Some(None));
}

#[test]
fn post_outcome_decisions() {
    assert!(needs_late_db_write(true, false));
    assert!(!needs_late_db_write(true, true));
    assert!(!needs_late_db_write(false, false));
    assert!(upload_succeeded(true, true, true));
    assert!(!upload_succeeded(true, true, false));
    assert!(!upload_succeeded(false, true, true));
    assert!(!upload_succeeded(true, false, true));
}
