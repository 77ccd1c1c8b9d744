use wasm_workers::console::{console_line, logger_line};
use wasm_workers::script::{prepare_handler, request_script, HttpRequest, ScriptError};
use wasm_workers::text::{parse_unsigned, to_decimal};
use wasm_workers::trampoline::{Next, Phase, Trampoline, TrampolineError};
use wasm_workers::url_record::{parse_url, set_url_field, UrlError, UrlField};

#[test]
fn url_parts_are_reported() {
    let r = parse_url("/p/a?q=1#frag", "https://user:pw@example.com:8080/base/").unwrap();
    assert_eq!(r.href, "https://user:pw@example.com:8080/p/a?q=1#frag");
    assert_eq!(r.origin, "https://example.com:8080");
    assert_eq!(r.protocol, "https");
    assert_eq!(r.host, "example.com");
    assert_eq!(r.hostname, "example.com");
    assert_eq!(r.port, "8080");
    assert_eq!(r.pathname, "/p/a");
    assert_eq!(r.search, "q=1");
    assert_eq!(r.hash, "frag");
    assert_eq!(r.username, "user");
    assert_eq!(r.password, "pw");
}

#[test]
fn absent_url_parts_read_empty() {
    let r = parse_url("http://127.0.0.1/", "about:blank").unwrap();
    assert_eq!(r.host, "127.0.0.1");
    assert_eq!(r.hostname, "");
    assert_eq!(r.port, "");
    assert_eq!(r.search, "");
    assert_eq!(r.hash, "");
    assert_eq!(r.password, "");
}

#[test]
fn malformed_url_fails() {
    assert!(matches!(parse_url("http://[::1", "about:blank"), Err(UrlError::Invalid(_))));
    assert!(matches!(parse_url("x", "not a base"), Err(UrlError::Invalid(_))));
}

#[test]
fn setters_reparse() {
    let href = "https://example.com/a";
    assert_eq!(set_url_field(href, UrlField::Port, "81").unwrap().port, "81");
    assert_eq!(set_url_field(href, UrlField::Pathname, "/b/c").unwrap().pathname, "/b/c");
    assert_eq!(set_url_field(href, UrlField::Search, "x=y").unwrap().search, "x=y");
    assert_eq!(set_url_field(href, UrlField::Hash, "top").unwrap().hash, "top");
    assert_eq!(set_url_field(href, UrlField::Host, "other.org").unwrap().host, "other.org");
    assert_eq!(set_url_field(href, UrlField::Username, "me").unwrap().username, "me");
    assert_eq!(set_url_field(href, UrlField::Password, "secret").unwrap().password, "secret");
    assert_eq!(set_url_field(href, UrlField::Protocol, "http").unwrap().protocol, "http");
}

#[test]
fn setter_refusals() {
    let href = "https://example.com/a";
    assert!(matches!(set_url_field(href, UrlField::Port, "abc"), Err(UrlError::InvalidPort)));
    assert!(matches!(set_url_field(href, UrlField::Port, "70000"), Err(UrlError::InvalidPort)));
    assert!(matches!(set_url_field(href, UrlField::Host, "a b"), Err(UrlError::Invalid(_))));
    // a refused scheme change is ignored
    assert_eq!(set_url_field(href, UrlField::Protocol, "1bad").unwrap().protocol, "https");
    assert!(matches!(set_url_field("nope", UrlField::Hash, "x"), Err(UrlError::Invalid(_))));
}

#[test]
fn handler_source_is_made_global() {
    assert_eq!(
        prepare_handler("  export const handleRequest = (r) => r;\n"),
        "globalThis.handleRequest = (r) => r;"
    );
    assert_eq!(
        prepare_handler("export async function handleRequest(r) {}"),
        "async function handleRequest(r) {}"
    );
    assert_eq!(prepare_handler("\tfunction f() {}\n\n"), "function f() {}");
}

fn plain_request() -> HttpRequest {
    HttpRequest {
        body: None,
        cache: None,
        credentials: Some("omit".into()),
        headers: vec![],
        integrity: None,
        method: "GET".into(),
        mode: None,
        redirect: None,
        referrer: None,
        referrer_policy: None,
        url: "https://test.test".into(),
    }
}

#[test]
fn request_statement_is_written() {
    let s = request_script(&plain_request()).unwrap();
    assert_eq!(
        s,
        "globalThis.___request = new Request('https://test.test', { body: '', cache: '', \
         credentials: 'omit', headers: {  }, integrity: '', method: 'GET', mode: '', \
         redirect: '', referrer: '', referrerPolicy: '', url: 'https://test.test', });"
    );
    let mut req = plain_request();
    req.body = Some(b"Hello".to_vec());
    req.headers = vec![("a".into(), "1".into()), ("b".into(), "2".into())];
    let s = request_script(&req).unwrap();
    assert!(s.contains("body: 'Hello', "));
    assert!(s.contains("headers: { \"a\": \"1\", \"b\": \"2\" }, "));
}

#[test]
fn request_body_must_be_text() {
    let mut req = plain_request();
    req.body = Some(vec![0xFF]);
    assert_eq!(request_script(&req).err(), Some(ScriptError::BodyNotUtf8));
}

#[test]
fn plain_value_is_emitted_without_draining() {
    let mut t: Trampoline<&str, String> = Trampoline::new();
    assert_eq!(t.phase(), Phase::Invoked);
    match t.returned("{\"a\":1}", false) {
        Next::Emit(v) => assert_eq!(v, "{\"a\":1}"),
        Next::InstallAndDrain => panic!("a plain value is not waited for"),
    }
    assert_eq!(t.phase(), Phase::Finished);
}

#[test]
fn thenable_settles_through_the_holder() {
    let mut t: Trampoline<&str, String> = Trampoline::new();
    assert!(matches!(t.returned("promise", true), Next::InstallAndDrain));
    assert_eq!(t.phase(), Phase::AwaitingSettlement);
    t.on_resolve("response");
    assert_eq!(t.drained(), Ok(Ok("response")));
    assert_eq!(t.phase(), Phase::Finished);

    let mut t: Trampoline<&str, String> = Trampoline::new();
    t.returned("promise", true);
    t.on_reject("boom".to_string());
    assert_eq!(t.drained(), Ok(Err("boom".to_string())));
}

#[test]
fn unsettled_thenable_has_no_result() {
    let mut t: Trampoline<&str, String> = Trampoline::new();
    t.returned("promise", true);
    assert_eq!(t.drained(), Err(TrampolineError::NeverSettled));
}

#[test]
fn log_lines() {
    let args = vec!["a".to_string(), "b c".to_string(), "".to_string()];
    assert_eq!(console_line(&args), "a b c \n");
    assert_eq!(console_line(&vec![]), "\n");
    assert_eq!(logger_line("___logger", &args), "___logger(a, b c, )\n");
    assert_eq!(logger_line("___logger", &vec!["x".to_string()]), "___logger(x)\n");
}

#[test]
fn decimal_text() {
    assert_eq!(to_decimal(0), "0");
    assert_eq!(to_decimal(65535), "65535");
    let c = |s: &str| s.chars().collect::<Vec<char>>();
    assert_eq!(parse_unsigned(&c("+0042"), 255), Some(42));
    assert_eq!(parse_unsigned(&c("255"), 255), Some(255));
    assert_eq!(parse_unsigned(&c("256"), 255), None);
    assert_eq!(parse_unsigned(&c("+"), 255), None);
    assert_eq!(parse_unsigned(&c(""), 255), None);
    assert_eq!(parse_unsigned(&c("4294967295"), u32::MAX), Some(u32::MAX));
    assert_eq!(parse_unsigned(&c("99999999999999999999"), u32::MAX), None);
}

#[test]
fn test_console_log() {
    assert_eq!(console_line(&vec!["hello world".to_string()]), "hello world\n");
    let words = vec!["bonjour".to_string(), "le".to_string(), "monde".to_string()];
    assert_eq!(console_line(&words), "bonjour le monde\n");
    let coerced: Vec<String> =
        ["2.3", "true", "[object Object]", "null", "undefined"].iter().map(|s| s.to_string()).collect();
    assert_eq!(console_line(&coerced), "2.3 true [object Object] null undefined\n");
}

#[test]
fn test_url() {
    let url = parse_url("http:@www.example.com?key_1=value_1", "about:blank").unwrap();
    assert_eq!(url.search, "key_1=value_1");
    let url = set_url_field(&url.href, UrlField::Host, "127.0.0.1").unwrap();
    let url = set_url_field(&url.href, UrlField::Port, "8080").unwrap();
    assert_eq!(url.host, "127.0.0.1");
    assert_eq!(url.port, "8080");
    assert_eq!(url.search, "key_1=value_1");
    let url = set_url_field(&url.href, UrlField::Hash, "is_a_hash").unwrap();
    let url = set_url_field(&url.href, UrlField::Host, "test.com").unwrap();
    let url = set_url_field(&url.href, UrlField::Password, "is_a_password").unwrap();
    let url = set_url_field(&url.href, UrlField::Pathname, "/en-US/docs/Web/API/URL/pathname").unwrap();
    let url = set_url_field(&url.href, UrlField::Port, "2023").unwrap();
    let url = set_url_field(&url.href, UrlField::Protocol, "https").unwrap();
    let url = set_url_field(&url.href, UrlField::Search, "key=value").unwrap();
    let url = set_url_field(&url.href, UrlField::Username, "is_a_username").unwrap();
    assert_eq!(url.hash, "is_a_hash");
    assert_eq!(url.hostname, "test.com");
    assert_eq!(url.host, "test.com");
    assert_eq!(url.port, "2023");
    assert_eq!(url.password, "is_a_password");
    assert_eq!(url.pathname, "/en-US/docs/Web/API/URL/pathname");
    assert_eq!(url.protocol, "https");
    assert_eq!(url.search, "key=value");
    assert_eq!(url.username, "is_a_username");
}

#[test]
fn request_values_are_escaped() {
    let mut req = plain_request();
    req.url = "https://t.test/it's".into();
    req.method = "G\\ET\n".into();
    req.headers = vec![("x\"y".into(), "a'b\u{2028}".into())];
    let s = request_script(&req).unwrap();
    assert!(s.starts_with("globalThis.___request = new Request('https://t.test/it\\'s', { "));
    assert!(s.contains("method: 'G\\\\ET\\n', "));
    assert!(s.contains("headers: { \"x\\\"y\": \"a\\'b\\u2028\" }, "));
}
