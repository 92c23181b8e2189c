use correlation_proxy::fields::{names_match, Field, Fields};

fn sample() -> Fields {
    let mut f = Fields::new();
    f.append("Accept".to_string(), b"text/html".to_vec());
    f.append("X-Request-Id".to_string(), b"caller-1".to_vec());
    f.append("accept".to_string(), b"application/json".to_vec());
    f.append("x-request-id".to_string(), b"caller-2".to_vec());
    f.append("Host".to_string(), b"example.org".to_vec());
    f
}

#[test]
fn names_compare_without_ascii_case() {
    assert!(names_match("Content-Length", "content-length"));
    assert!(names_match("X-ID", "x-id"));
    assert!(!names_match("X-ID", "X-IDs"));
    assert!(!names_match("accept", "accepts"));
    assert!(!names_match("a-b", "a_b"));
    assert!(names_match("", ""));
}

#[test]
fn get_returns_every_value_under_a_name_in_order() {
    let f = sample();
    assert_eq!(
        f.get("ACCEPT"),
        vec![b"text/html".to_vec(), b"application/json".to_vec()]
    );
    assert_eq!(f.get("host"), vec![b"example.org".to_vec()]);
    assert!(f.get("missing").is_empty());
}

#[test]
fn set_replaces_all_values_and_keeps_the_rest() {
    let mut f = sample();
    f.set(&"X-Request-Id".to_string(), vec![b"fresh".to_vec()]);
    assert_eq!(f.len(), 4);
    assert_eq!(f.get("x-request-id"), vec![b"fresh".to_vec()]);
    assert_eq!(
        f.entries,
        vec![
            Field { name: "Accept".to_string(), value: b"text/html".to_vec() },
            Field { name: "accept".to_string(), value: b"application/json".to_vec() },
            Field { name: "Host".to_string(), value: b"example.org".to_vec() },
            Field { name: "X-Request-Id".to_string(), value: b"fresh".to_vec() },
        ]
    );
}

#[test]
fn set_with_no_values_removes_a_name() {
    let mut f = sample();
    f.set(&"accept".to_string(), Vec::new());
    assert_eq!(f.len(), 3);
    assert!(f.get("Accept").is_empty());
}
