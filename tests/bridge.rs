use wasm_workers::byte_list::parse_byte_list;
use wasm_workers::fetch::{check_arity, fetch_request, ArityError, FetchError};
use reqwest::header::{HeaderName, HeaderValue};
use wasm_workers::header_map::{
    header_pair, header_text, request_headers, request_target, response_from_parts, HeaderError,
};
use wasm_workers::http::{
    classify, collapse_headers, BoxedRequestError, FailureTraits, RequestError, RequestErrorKind,
};

fn quiet() -> FailureTraits {
    FailureTraits {
        timeout: false,
        decode: false,
        body: false,
        redirect: false,
        request: false,
        status: None,
    }
}

fn pair(n: &str, v: &str) -> (String, String) {
    (n.to_string(), v.to_string())
}

#[test]
fn timeout_is_classified_as_timeout() {
    let t = FailureTraits { timeout: true, request: true, ..quiet() };
    assert_eq!(classify(t), RequestErrorKind::Timeout);
}

#[test]
fn not_found_is_classified_as_status() {
    let t = FailureTraits { status: Some(404), ..quiet() };
    assert_eq!(classify(t), RequestErrorKind::Status(404));
}

#[test]
fn classification_order() {
    assert_eq!(classify(FailureTraits { decode: true, redirect: true, ..quiet() }), RequestErrorKind::Body);
    assert_eq!(classify(FailureTraits { body: true, ..quiet() }), RequestErrorKind::Body);
    assert_eq!(classify(FailureTraits { redirect: true, request: true, ..quiet() }), RequestErrorKind::Redirect);
    assert_eq!(classify(FailureTraits { request: true, status: Some(500), ..quiet() }), RequestErrorKind::Request);
    assert_eq!(classify(quiet()), RequestErrorKind::Unknown);
}

#[test]
fn serial_error_and_boxing() {
    let e = RequestError::serial("request serialization failed");
    assert_eq!(e.kind, RequestErrorKind::Serial);
    assert_eq!(e.url, Some(String::new()));
    let boxed = BoxedRequestError::from(e);
    assert_eq!(boxed.0.message, "request serialization failed");
}

#[test]
fn repeated_headers_keep_the_last_value() {
    let pairs = vec![pair("a", "1"), pair("b", "2"), pair("a", "3"), pair("c", "4"), pair("b", "5")];
    let r = collapse_headers(pairs);
    assert_eq!(r, vec![pair("a", "3"), pair("b", "5"), pair("c", "4")]);
    assert_eq!(collapse_headers(vec![]), vec![]);
}

#[test]
fn response_reports_status_headers_and_body() {
    let r = response_from_parts(404, vec![pair("x", "1"), pair("x", "2")], b"nope".to_vec());
    assert_eq!(r.status, 404);
    assert_eq!(r.headers, Some(vec![pair("x", "2")]));
    assert_eq!(r.body, Some(b"nope".to_vec()));
}

#[test]
fn valid_headers_become_a_map() {
    let m = request_headers(&vec![pair("Content-Type", "text/plain"), pair("x-test", "a\tb")]).unwrap();
    assert_eq!(m.len(), 2);
    assert_eq!(m.get("content-type").unwrap(), "text/plain");
    assert_eq!(request_headers(&vec![]).unwrap().len(), 0);
}

#[test]
fn malformed_headers_fail_first_by_name() {
    assert_eq!(request_headers(&vec![pair("bad name", "v")]).err(), Some(HeaderError::InvalidName));
    assert_eq!(request_headers(&vec![pair("", "v")]).err(), Some(HeaderError::InvalidName));
    assert_eq!(request_headers(&vec![pair("ok", "line\nbreak")]).err(), Some(HeaderError::InvalidValue));
    assert_eq!(
        request_headers(&vec![pair("ok", "bad\u{7f}"), pair("bad name", "v")]).err(),
        Some(HeaderError::InvalidValue)
    );
}

#[test]
fn too_many_headers_are_refused() {
    let pairs: Vec<(String, String)> = (0..6554).map(|i| (format!("h{i}"), String::new())).collect();
    assert_eq!(request_headers(&pairs).err(), Some(HeaderError::TooMany));
    assert_eq!(request_headers(&pairs[..6553].to_vec()).unwrap().len(), 6553);
}

#[test]
fn byte_list_bodies() {
    assert_eq!(parse_byte_list("104, 105"), Some(vec![104, 105]));
    assert_eq!(parse_byte_list(""), Some(vec![]));
    assert_eq!(parse_byte_list("0,255"), Some(vec![0, 255]));
    assert_eq!(parse_byte_list(" +7 ,\u{3000}8\t"), Some(vec![7, 8]));
    assert_eq!(parse_byte_list("256"), None);
    assert_eq!(parse_byte_list("1,,2"), None);
    assert_eq!(parse_byte_list("1,"), None);
    assert_eq!(parse_byte_list("a"), None);
    assert_eq!(parse_byte_list(" "), None);
    assert_eq!(parse_byte_list("-1"), None);
}

#[test]
fn fetch_call_becomes_request() {
    let r = fetch_request("POST".into(), "https://test.test".into(), vec![pair("x", "y")], "72, 105").unwrap();
    assert_eq!(r.method, "POST");
    assert_eq!(r.url, "https://test.test");
    assert_eq!(r.headers, Some(vec![pair("x", "y")]));
    assert_eq!(r.body, Some(b"Hi".to_vec()));
    let e = fetch_request("GET".into(), "https://test.test".into(), vec![], "300").err();
    assert_eq!(e, Some(FetchError::InvalidBody));
}

#[test]
fn arity_is_checked() {
    assert_eq!(check_arity(5, 5), Ok(()));
    assert_eq!(check_arity(1, 0), Err(ArityError { expected: 1, received: 0 }));
    assert_eq!(check_arity(5, 4), Err(ArityError { expected: 5, received: 4 }));
}

#[test]
fn client_failure_keeps_its_message() {
    let e = reqwest::Client::new().get("not a url").build().unwrap_err();
    let r = RequestError::from_transport(&e);
    assert_eq!(r.kind, RequestErrorKind::Unknown);
    assert_eq!(r.message, e.to_string());
    assert_eq!(r.url, None);
}

#[test]
fn response_header_text() {
    let name = HeaderName::from_static("content-type");
    let value = HeaderValue::from_static("text/plain;charset=UTF-8");
    assert_eq!(header_pair(&name, &value), pair("content-type", "text/plain;charset=UTF-8"));
    let raw = HeaderValue::from_bytes(b"caf\xe9").unwrap();
    assert_eq!(header_text(&raw), "");
}

#[test]
fn request_target_is_read_before_io() {
    let (method, url) = request_target("POST", "https://test.test/a").unwrap();
    assert_eq!(method, reqwest::Method::POST);
    assert_eq!(url.as_str(), "https://test.test/a");
    let e = request_target("BAD METHOD", "https://test.test/").unwrap_err();
    assert_eq!(e.kind, RequestErrorKind::Request);
    assert_eq!(e.url, Some("https://test.test/".to_string()));
    let e = request_target("GET", "not a url").unwrap_err();
    assert_eq!(e.kind, RequestErrorKind::Request);
    assert!(!e.message.is_empty());
}

#[test]
fn distinct_headers_one_entry_each() {
    let m = request_headers(&vec![pair("A", "1"), pair("b", "2"), pair("a", "3")]).unwrap();
    assert_eq!(m.len(), 2);
    assert_eq!(m.get("a").unwrap(), "3");
}
