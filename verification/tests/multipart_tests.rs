use transpo2::multipart_form::{
    byte_map, ends_with_subslice, find_ending_subslice_of, find_subslice, find_value_len, parse,
    try_find_subslice, try_strip_prefix, ParseResult,
};

#[test]
fn test_find_subslice() {
    let s1 = vec![1, 2, 3, 3, 2, 5, 1];

    assert_eq!(find_subslice(&s1, &vec![3, 2], &byte_map(&vec![3, 2]).unwrap()), Some(3));
    assert_eq!(find_subslice(&s1, &vec![5, 5], &byte_map(&vec![5, 5]).unwrap()), None);
    assert_eq!(find_subslice(&s1, &vec![1], &byte_map(&vec![1]).unwrap()), Some(0));
    assert_eq!(find_subslice(&s1, &vec![0; 20], &byte_map(&vec![0; 20]).unwrap()), None);
    assert_eq!(find_subslice(&s1, &s1, &byte_map(&s1).unwrap()), Some(0));
}

#[test]
fn test_find_ending_subslice_of() {
    let s1 = b"foobar";

    assert_eq!(find_ending_subslice_of(s1, b"barnacle", &byte_map(b"barnacle").unwrap()), Some(3));
    assert_eq!(find_ending_subslice_of(s1, b"foobar", &byte_map(b"foobar").unwrap()), Some(0));
    assert_eq!(find_ending_subslice_of(s1, b"foo", &byte_map(b"foo").unwrap()), None);
}

#[test]
fn test_parse() {
    const FORM_BODY: &'static [u8] =
b"\r
--boundary\r
Content-Disposition: form-data; name=\"field1\"\r
\r
value1\r
--boundary\r
Content-Disposition: form-data; name=\"field2\"; filename=\"example.txt\"\r
\r
value2\r
--boundary--";

    const BOUNDARY: &'static [u8] = b"\r\n--boundary";
    let byte_map = byte_map(BOUNDARY).unwrap();
    const CD_1: &'static str = "form-data; name=\"field1\"";
    const VALUE_1: &'static [u8] = b"value1";
    const CD_2: &'static str = "form-data; name=\"field2\"; filename=\"example.txt\"";
    const VALUE_2: &'static [u8] = b"value2";

    let mut i = 0;
    let mut value = 0;
    loop {
        match parse(&FORM_BODY[i..], BOUNDARY, &byte_map) {
            ParseResult::NewValue(len, cd, _ct, val) => {
                i += len;

                if value == 0 {
                    assert_eq!(cd, CD_1);
                    assert_eq!(val, VALUE_1);
                } else {
                    assert_eq!(cd, CD_2);
                    assert_eq!(val, VALUE_2);
                }

                value += 1;
            },
            ParseResult::Continue(val) => i += val.len(),
            ParseResult::Finished | ParseResult::Error | ParseResult::NeedMoreData => break
        }
    }
}

#[test]
fn byte_map_shifts() {
    let m = byte_map(b"abcab").unwrap();
    assert_eq!(m[b'b' as usize], 0);
    assert_eq!(m[b'a' as usize], 1);
    assert_eq!(m[b'c' as usize], 2);
    assert_eq!(m[b'z' as usize], 5);
    assert!(byte_map(&[0u8; 256]).is_none());
    assert!(byte_map(&[0u8; 255]).is_some());
}

#[test]
fn ends_with_subslice_cases() {
    let m = byte_map(b"\r\n--b").unwrap();
    assert!(ends_with_subslice(b"data\r\n-", b"\r\n--b", &m));
    assert!(!ends_with_subslice(b"data", b"\r\n--b", &m));
    assert!(!ends_with_subslice(b"", b"\r\n--b", &m));
}

#[test]
fn value_length_stops_at_boundary_or_its_start() {
    let boundary = b"\r\n--xyz";
    let m = byte_map(boundary).unwrap();
    assert_eq!(find_value_len(b"abc\r\n--xyz rest", boundary, &m), 3);
    assert_eq!(find_value_len(b"abc\r\n-", boundary, &m), 3);
    assert_eq!(find_value_len(b"abcdef", boundary, &m), 6);
}

#[test]
fn strip_prefix_results() {
    let p = b"Content-Type: ";
    let m = byte_map(p).unwrap();
    match try_strip_prefix(b"Content-Type: text", p, &m) {
        Ok(rest) => assert_eq!(rest, b"text"),
        Err(_) => panic!("expected the prefix to be stripped"),
    }
    assert!(matches!(try_strip_prefix(b"Content-Ty", p, &m), Err(ParseResult::NeedMoreData)));
    assert!(matches!(try_strip_prefix(b"Other", p, &m), Err(ParseResult::Error)));
    let nl = byte_map(b"\r\n").unwrap();
    assert_eq!(try_find_subslice(b"ab\r\n", b"\r\n", &nl).ok(), Some(2));
    assert!(matches!(try_find_subslice(b"ab", b"\r\n", &nl), Err(ParseResult::NeedMoreData)));
}

#[test]
fn parse_field_with_content_type() {
    let boundary = b"\r\n--b";
    let m = byte_map(boundary).unwrap();
    let body = b"\r\n--b\r\nContent-Disposition: form-data; name=\"files\"; filename=\"a\"\r\nContent-Type: text/plain\r\n\r\nhello\r\n--b--";
    match parse(body, boundary, &m) {
        ParseResult::NewValue(len, cd, ct, val) => {
            assert_eq!(cd, "form-data; name=\"files\"; filename=\"a\"");
            assert_eq!(ct, "text/plain");
            assert_eq!(val, b"hello");
            assert_eq!(&body[len..], b"\r\n--b--");
            assert!(matches!(parse(&body[len..], boundary, &m), ParseResult::Finished));
        },
        _ => panic!("expected a new value"),
    }
}

#[test]
fn parse_needs_more_data_and_errors() {
    let boundary = b"\r\n--b";
    let m = byte_map(boundary).unwrap();
    assert!(matches!(parse(b"\r\n--b\r\nContent-Disp", boundary, &m), ParseResult::NeedMoreData));
    assert!(matches!(parse(b"\r\n--b\r\nX-Header: 1\r\n", boundary, &m), ParseResult::Error));
    let full = b"\r\n--boundary";
    let fm = byte_map(full).unwrap();
    let headers_only = b"\r\n--boundary\r\nContent-Disposition: form-data; name=\"a\"\r\n\r\n";
    assert!(matches!(parse(headers_only, full, &fm), ParseResult::NeedMoreData));
    let ct_cut = b"\r\n--boundary\r\nContent-Disposition: form-data; name=\"a\"\r\nContent-Type: t\r\n";
    assert!(matches!(parse(ct_cut, full, &fm), ParseResult::NeedMoreData));
    assert!(matches!(parse(b"\r\n--b\r\nContent-Disposition: \xff\r\n\r\nv", boundary, &m), ParseResult::Error));
    match parse(b"partial value\r\n--", boundary, &m) {
        ParseResult::Continue(v) => assert_eq!(v, b"partial value"),
        _ => panic!("expected a continuation"),
    }
}
