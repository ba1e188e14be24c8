use wry::{HttpResponse, HttpVersion, ObjcResponse, ResponseHead};

fn response<T>(status: u16, headers: &[(&str, &[u8])], body: T) -> HttpResponse<T> {
    HttpResponse {
        head: ResponseHead {
            status,
            version: HttpVersion::Http11,
            headers: headers.iter().map(|(k, v)| (k.to_string(), v.to_vec())).collect(),
        },
        body,
    }
}

fn assert_header(ns_response: &ObjcResponse, key: &str, expected_value: &str) {
    let actual_value = ns_response
        .header_fields
        .get(key)
        .unwrap_or_else(|| panic!("header {key:?} not found"));
    assert_eq!(
        actual_value, expected_value,
        "header {key:?} value mismatch: expected {expected_value:?}, got {actual_value:?}"
    );
}

#[test]
fn test_into_nsresponse_from_http_response() {
    let http_response = response(200, &[("content-type", b"application/octet-stream")], vec![1u8, 2, 3, 4]);

    let ns_response = http_response.into_objc();

    assert_eq!(ns_response.status_code, 200);
    assert_header(&ns_response, "content-type", "application/octet-stream");
    assert_header(&ns_response, "content-length", "4");
    assert_eq!(ns_response.header_fields.len(), 2); // content-type + content-length
}

#[test]
fn test_into_nsresponse_from_zero_length_http_response() {
    let http_response = response(200, &[], Vec::<u8>::new());

    let ns_response = http_response.into_objc();

    assert_eq!(ns_response.status_code, 200);
    assert_header(&ns_response, "content-length", "0");
    assert_eq!(ns_response.header_fields.len(), 1);
}

#[test]
fn test_into_nsresponse_from_unit_http_response() {
    let http_response_unit = response(204, &[], ());

    let ns_response_unit = http_response_unit.into_objc();

    assert_eq!(ns_response_unit.status_code, 204);
    assert_header(&ns_response_unit, "content-length", "0");
    assert_eq!(ns_response_unit.header_fields.len(), 1);
}

#[test]
fn test_into_nsresponse_from_http_response_with_headers() {
    let http_response = response(
        200,
        &[("content-type", b"text/plain"), ("header-one", b"cool"), ("header-two", b"beans")],
        vec![1u8, 2, 3, 4],
    );

    let ns_response = http_response.into_objc();

    assert_eq!(ns_response.header_fields.len(), 4); // 3 + content-length
    assert_header(&ns_response, "header-one", "cool");
    assert_header(&ns_response, "header-two", "beans");
    assert_header(&ns_response, "content-type", "text/plain");
    assert_header(&ns_response, "content-length", "4");
    assert_eq!(ns_response.status_code, 200);
}

#[test]
fn test_into_nsresponse_from_http_response_with_invalid_utf8() {
    let invalid_value: &[u8] = b"\x80\x81\x82";

    let http_response = response(200, &[("valid-header", b"valid-value"), ("invalid-header", invalid_value)], vec![1u8]);

    let ns_response = http_response.into_objc();

    assert_header(&ns_response, "valid-header", "valid-value");
    assert_header(&ns_response, "content-length", "1");

    assert!(ns_response.header_fields.get("invalid-header").is_none()); // the invalid header is *not* present

    assert_eq!(ns_response.header_fields.len(), 2); // i.e. valid-header + content-length
}

#[test]
fn into_objc_announces_body_length_over_given_header() {
    let r = response(200, &[("content-length", b"999")], vec![0u8; 1234]);
    let ns = r.into_objc();
    assert_header(&ns, "content-length", "1234");
    assert_eq!(ns.header_fields.len(), 1);
}

#[test]
fn into_objc_last_visible_value_wins() {
    let r = response(200, &[("set-thing", b"first"), ("set-thing", b"second"), ("set-thing", b"\x7f")], ());
    let ns = r.into_objc();
    assert_header(&ns, "set-thing", "second");
    assert_eq!(ns.header_fields.len(), 2);
}

#[test]
fn into_objc_keeps_tab_and_version_text() {
    let mut r = response(404, &[("x", b"a\tb")], ());
    r.head.version = HttpVersion::H2;
    let ns = r.into_objc();
    assert_header(&ns, "x", "a\tb");
    assert_eq!(ns.http_version, "HTTP/2.0");
    assert_eq!(ns.status_code, 404);
    assert_eq!(HttpVersion::Http09.as_str(), "HTTP/0.9");
    assert_eq!(HttpVersion::Http10.as_str(), "HTTP/1.0");
    assert_eq!(HttpVersion::Http11.as_str(), "HTTP/1.1");
    assert_eq!(HttpVersion::H3.as_str(), "HTTP/3.0");
}

#[test]
fn into_objc_counts_borrowed_body() {
    let body = vec![5u8; 17];
    let r = response(200, &[], &body);
    assert_header(&r.into_objc(), "content-length", "17");
}
