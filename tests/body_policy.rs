use correlation_proxy::body::{has_body, parse_content_length, Method};

fn lengths(values: &[&str]) -> Vec<Vec<u8>> {
    values.iter().map(|v| v.as_bytes().to_vec()).collect()
}

#[test]
fn methods_without_payload_never_have_a_body() {
    let others = vec![
        Method::Get,
        Method::Head,
        Method::Delete,
        Method::Connect,
        Method::Options,
        Method::Trace,
        Method::Other("PROPFIND".to_string()),
    ];
    for m in others {
        assert!(!has_body(&m, &lengths(&["42"])));
        assert!(!has_body(&m, &lengths(&["1", "7"])));
        assert!(!has_body(&m, &lengths(&[])));
    }
}

#[test]
fn payload_methods_with_positive_length_have_a_body() {
    assert!(has_body(&Method::Post, &lengths(&["42"])));
    assert!(has_body(&Method::Put, &lengths(&["1"])));
    assert!(has_body(&Method::Patch, &lengths(&["18446744073709551615"])));
}

#[test]
fn payload_methods_without_positive_length_have_no_body() {
    assert!(!has_body(&Method::Post, &lengths(&[])));
    assert!(!has_body(&Method::Post, &lengths(&["0"])));
    assert!(!has_body(&Method::Put, &lengths(&["0", "000"])));
    assert!(!has_body(&Method::Patch, &lengths(&["abc"])));
    assert!(!has_body(&Method::Post, &lengths(&["-5"])));
    assert!(!has_body(&Method::Post, &lengths(&[" 5"])));
    assert!(!has_body(&Method::Post, &lengths(&["18446744073709551616"])));
    assert!(!has_body(&Method::Post, &vec![vec![0xffu8, 0x35u8]]));
}

#[test]
fn one_positive_value_among_malformed_ones_is_enough() {
    assert!(has_body(&Method::Post, &lengths(&["abc", "0", "3"])));
    assert!(has_body(&Method::Put, &lengths(&["", "+9"])));
}

#[test]
fn content_length_values_parse_as_decimal() {
    assert_eq!(parse_content_length(b"42"), Some(42));
    assert_eq!(parse_content_length(b"0"), Some(0));
    assert_eq!(parse_content_length(b"007"), Some(7));
    assert_eq!(parse_content_length(b"+15"), Some(15));
    assert_eq!(parse_content_length(b"18446744073709551615"), Some(u64::MAX));
}

#[test]
fn malformed_content_length_values_declare_nothing() {
    assert_eq!(parse_content_length(b""), None);
    assert_eq!(parse_content_length(b"+"), None);
    assert_eq!(parse_content_length(b"-1"), None);
    assert_eq!(parse_content_length(b"-0"), None);
    assert_eq!(parse_content_length(b"4 2"), None);
    assert_eq!(parse_content_length(b"0x10"), None);
    assert_eq!(parse_content_length(b"++1"), None);
    assert_eq!(parse_content_length(b"18446744073709551616"), None);
    assert_eq!(parse_content_length(b"99999999999999999999999"), None);
}
