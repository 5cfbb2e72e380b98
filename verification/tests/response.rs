use spoof::error::ConfigError;
use spoof::response::MockResponseBuilder;

#[test]
fn default_status_is_ok() {
    let t = MockResponseBuilder::new();
    assert_eq!(t.effective_status(), 200);
    assert!(t.status_code().is_none());
    assert!(t.body().is_none());
    assert!(t.delay_ms().is_none());
    assert_eq!(t.mime_type(), "");
}

#[test]
fn status_codes_outside_the_protocol_range_are_rejected() {
    assert_eq!(
        MockResponseBuilder::new().with_status_code(99).unwrap_err(),
        ConfigError::InvalidStatusCode
    );
    assert!(MockResponseBuilder::new().with_status_code(1000).is_err());
    let t = MockResponseBuilder::new().with_status_code(404).unwrap();
    assert_eq!(t.effective_status(), 404);
}

#[test]
fn append_keeps_existing_headers_and_insert_replaces_them() {
    let t = MockResponseBuilder::new()
        .with_header_append("x-a", "1")
        .unwrap()
        .with_header_append("x-a", "2")
        .unwrap();
    let names: Vec<(String, String)> = t
        .headers()
        .iter()
        .map(|p| (p.name.clone(), p.value.clone()))
        .collect();
    assert_eq!(names, vec![
        (String::from("x-a"), String::from("1")),
        (String::from("x-a"), String::from("2")),
    ]);

    let replaced = t.with_header_insert("X-A", "3").unwrap();
    let after: Vec<(String, String)> = replaced
        .headers()
        .iter()
        .map(|p| (p.name.clone(), p.value.clone()))
        .collect();
    assert_eq!(after, vec![(String::from("X-A"), String::from("3"))]);
}

#[test]
fn header_validation_applies_to_the_template() {
    assert!(MockResponseBuilder::new().with_header_append("bad name", "v").is_err());
    assert!(MockResponseBuilder::new().with_header_append("ok", "bad\nvalue").is_err());
}

#[test]
fn body_setters_record_bytes_and_content_type() {
    let s = MockResponseBuilder::new().with_body_string("hi");
    assert_eq!(s.body().unwrap().as_slice(), b"hi");
    assert_eq!(s.mime_type(), "text/plain");

    let b = MockResponseBuilder::new().with_body_bytes(vec![1, 2, 3]);
    assert_eq!(b.body().unwrap().as_slice(), &[1, 2, 3]);
    assert_eq!(b.mime_type(), "");

    let c = MockResponseBuilder::new().with_body(vec![123], "application/json");
    assert_eq!(c.mime_type(), "application/json");

    let d = MockResponseBuilder::new().with_delay(250);
    assert_eq!(d.delay_ms(), Some(250));
}
