use curl_easy::ErrCode;
use curl_easy::header::parse;
use curl_easy::opt::NativeArg;
use curl_easy::opt::OptValue;
use curl_easy::opt::marshal;

#[test]
fn parse_splits_name_and_value() {
    let line = b"Content-Type: text/html\r\n".to_vec();
    let parsed = parse(&line);
    assert_eq!(
        parsed,
        Some(("Content-Type".to_string(), "text/html".to_string()))
    );
}

#[test]
fn parse_rejects_a_line_without_colon() {
    let line = b"HTTP/1.1 200 OK\r\n".to_vec();
    assert_eq!(parse(&line), None);
    assert_eq!(parse(&Vec::new()), None);
}

#[test]
fn parse_trims_whitespace_around_the_value() {
    let line = b"X-Key: \t  spaced value  \r\n".to_vec();
    assert_eq!(
        parse(&line),
        Some(("X-Key".to_string(), "spaced value".to_string()))
    );
}

#[test]
fn parse_splits_at_the_first_colon_only() {
    let line = b"Host: example.test:8080\r\n".to_vec();
    assert_eq!(
        parse(&line),
        Some(("Host".to_string(), "example.test:8080".to_string()))
    );
}

#[test]
fn parse_keeps_empty_names_and_values() {
    assert_eq!(parse(&b"X-Empty:\r\n".to_vec()), Some(("X-Empty".to_string(), String::new())));
    assert_eq!(parse(&b":odd\r\n".to_vec()), Some((String::new(), "odd".to_string())));
}

#[test]
fn marshal_text_appends_a_terminating_nul() {
    let arg = marshal(&OptValue::Str("abc".to_string()));
    assert_eq!(arg, Some(NativeArg::CStr(vec![97, 98, 99, 0])));
}

#[test]
fn marshal_text_with_interior_nul_has_no_representation() {
    let arg = marshal(&OptValue::Str("a\u{0}b".to_string()));
    assert_eq!(arg, None);
}

#[test]
fn marshal_words_pass_through() {
    assert_eq!(marshal(&OptValue::Long(-5)), Some(NativeArg::Long(-5)));
    assert_eq!(marshal(&OptValue::Ptr(7)), Some(NativeArg::Word(7)));
    assert_eq!(marshal(&OptValue::FunctionPtr(9)), Some(NativeArg::Word(9)));
}

#[test]
fn error_code_classifies_success_and_failure() {
    assert!(ErrCode::new(0).is_success());
    assert!(!ErrCode::new(7).is_success());
    assert_eq!(ErrCode::new(0).into_result(), Ok(()));
    assert_eq!(ErrCode::new(7).into_result(), Err(ErrCode::new(7)));
}
