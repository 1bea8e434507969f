use matrix_request::errors::MatrixError;
use matrix_request::params::StrMap;
use matrix_request::request::{ClientHandle, MatrixRequest, Method, RequestBody};

fn client(base: &str, token: &str) -> ClientHandle {
    ClientHandle { url: base.to_string(), access_token: token.to_string() }
}

#[test]
fn new_basic_yields_empty_params_and_no_body() {
    let req = MatrixRequest::new_basic(Method::Get, "/sync".to_string());
    assert_eq!(req.params.len(), 0);
    assert!(matches!(req.body, RequestBody::NoBody));
    assert!(req.check_wf());
}

#[test]
fn basic_get_sync_builds_exact_url_and_no_body() {
    let req = MatrixRequest::new_basic(Method::Get, "/sync".to_string());
    let t = req.make_hyper(&client("https://example.org", "abc123")).unwrap();
    assert_eq!(t.url, "https://example.org/_matrix/client/r0/sync?access_token=abc123");
    assert!(t.body.is_none());
    assert!(matches!(t.method, Method::Get));
}

#[test]
fn form_body_serializes_exactly() {
    let req = MatrixRequest::new_with_body(
        Method::Post,
        "/send".to_string(),
        vec![("foo".to_string(), "bar".to_string())],
    );
    let t = req.make_hyper(&client("https://example.org", "tok")).unwrap();
    assert_eq!(t.body.as_deref(), Some("{\"foo\":\"bar\"}"));
}

#[test]
fn form_body_keys_come_out_sorted() {
    let req = MatrixRequest::new_with_body(
        Method::Post,
        "/send".to_string(),
        vec![("b".to_string(), "2".to_string()), ("a".to_string(), "1".to_string())],
    );
    let t = req.make_hyper(&client("https://example.org", "tok")).unwrap();
    assert_eq!(t.body.as_deref(), Some("{\"a\":\"1\",\"b\":\"2\"}"));
}

#[test]
fn form_body_later_pair_wins() {
    let req = MatrixRequest::new_with_body(
        Method::Post,
        "/send".to_string(),
        vec![("k".to_string(), "1".to_string()), ("k".to_string(), "2".to_string())],
    );
    let t = req.make_hyper(&client("https://example.org", "tok")).unwrap();
    assert_eq!(t.body.as_deref(), Some("{\"k\":\"2\"}"));
}

#[test]
fn empty_form_body_is_omitted() {
    let req = MatrixRequest::new_with_body(Method::Post, "/send".to_string(), vec![]);
    let t = req.make_hyper(&client("https://example.org", "tok")).unwrap();
    assert!(t.body.is_none());
}

#[test]
fn json_text_body_is_attached_verbatim() {
    let mut req = MatrixRequest::new_basic(Method::Put, "/state".to_string());
    req.body = RequestBody::Json("{\"msgtype\":\"m.text\"}".to_string());
    let t = req.make_hyper(&client("https://example.org", "tok")).unwrap();
    assert_eq!(t.body.as_deref(), Some("{\"msgtype\":\"m.text\"}"));
}

#[test]
fn json_text_empty_object_is_omitted() {
    let mut req = MatrixRequest::new_basic(Method::Put, "/state".to_string());
    req.body = RequestBody::Json("{}".to_string());
    let t = req.make_hyper(&client("https://example.org", "tok")).unwrap();
    assert!(t.body.is_none());
}

#[test]
fn param_appears_once_in_query() {
    let mut req = MatrixRequest::new_basic(Method::Get, "/sync".to_string());
    req.params.insert("since".to_string(), "s123".to_string());
    let t = req.make_hyper(&client("https://example.org", "abc123")).unwrap();
    assert_eq!(t.url.matches("&since=s123").count(), 1);
    assert!(t.url.contains("access_token=abc123"));
}

#[test]
fn params_are_percent_encoded() {
    let mut req = MatrixRequest::new_basic(Method::Get, "/sync".to_string());
    req.params.insert("a b".to_string(), "c#d`".to_string());
    let t = req.make_hyper(&client("https://example.org", "tok")).unwrap();
    assert!(t.url.contains("&a%20b=c%23d%60"));
    assert!(!t.url.contains("a b"));
}

fn pct_decode(s: &str) -> String {
    let bytes = s.as_bytes();
    let mut out = String::new();
    let mut i = 0;
    while i < bytes.len() {
        if bytes[i] == b'%' && i + 2 < bytes.len() {
            let hi = (bytes[i + 1] as char).to_digit(16).unwrap();
            let lo = (bytes[i + 2] as char).to_digit(16).unwrap();
            out.push((hi * 16 + lo) as u8 as char);
            i += 3;
        } else {
            out.push(bytes[i] as char);
            i += 1;
        }
    }
    out
}

#[test]
fn query_pairs_decode_back_to_the_map() {
    let mut req = MatrixRequest::new_basic(Method::Get, "/sync".to_string());
    req.params.insert("a b".to_string(), "x y".to_string());
    req.params.insert("c".to_string(), "d~e".to_string());
    let t = req.make_hyper(&client("https://example.org", "tok")).unwrap();
    let query = t.url.split('?').nth(1).unwrap();
    let mut decoded: Vec<(String, String)> = Vec::new();
    for frag in query.split('&') {
        let mut it = frag.splitn(2, '=');
        let k = it.next().unwrap();
        let v = it.next().unwrap();
        decoded.push((pct_decode(k), pct_decode(v)));
    }
    decoded.sort();
    assert_eq!(
        decoded,
        vec![
            ("a b".to_string(), "x y".to_string()),
            ("access_token".to_string(), "tok".to_string()),
            ("c".to_string(), "d~e".to_string()),
        ]
    );
}

#[test]
fn encoding_boundaries() {
    let mut req = MatrixRequest::new_basic(Method::Get, "/sync".to_string());
    req.params.insert("k".to_string(), "{\u{7f}}\n~".to_string());
    let t = req.make_hyper(&client("https://example.org", "tok")).unwrap();
    assert!(t.url.contains("&k=%7B%7F%7D%0A~"));
}

#[test]
fn endpoint_is_not_encoded_and_can_break_the_url() {
    // The endpoint passes through unescaped by design; one that holds a
    // space therefore breaks the URL grammar and surfaces as a parse error.
    let req = MatrixRequest::new_basic(Method::Get, "/a b".to_string());
    let r = req.make_hyper(&client("https://example.org", "tok"));
    assert_eq!(r.err(), Some(MatrixError::UrlParse));
}

#[test]
fn empty_base_url_fails_to_parse() {
    let req = MatrixRequest::new_basic(Method::Get, "/sync".to_string());
    let r = req.make_hyper(&client("", "abc123"));
    assert_eq!(r.err(), Some(MatrixError::UrlParse));
}

#[test]
fn schemeless_base_url_fails_to_parse() {
    let req = MatrixRequest::new_basic(Method::Get, "/sync".to_string());
    let r = req.make_hyper(&client("example.org", "abc123"));
    assert_eq!(r.err(), Some(MatrixError::UrlParse));
}

#[test]
fn invalid_url_after_scheme_fails_to_parse() {
    let req = MatrixRequest::new_basic(Method::Get, "/sync".to_string());
    let r = req.make_hyper(&client("https://exa mple.org", "abc123"));
    assert_eq!(r.err(), Some(MatrixError::UrlParse));
}

#[test]
fn url_starts_with_base_prefix_endpoint() {
    let mut req = MatrixRequest::new_basic(Method::Get, "/rooms/x/state".to_string());
    req.params.insert("k".to_string(), "v".to_string());
    let t = req.make_hyper(&client("https://example.org", "tok")).unwrap();
    assert!(t.url.starts_with("https://example.org/_matrix/client/r0/rooms/x/state?"));
}

#[test]
fn str_map_last_write_wins() {
    let mut m = StrMap::new();
    m.insert("k".to_string(), "1".to_string());
    m.insert("k".to_string(), "2".to_string());
    assert_eq!(m.len(), 1);
    assert_eq!(m.get(&"k".to_string()).map(|s| s.as_str()), Some("2"));
}

#[test]
fn str_map_get_absent_key() {
    let mut m = StrMap::new();
    m.insert("k".to_string(), "1".to_string());
    assert!(m.get(&"missing".to_string()).is_none());
    assert!(!m.is_empty());
    assert!(StrMap::new().is_empty());
}

#[test]
fn error_descriptions() {
    assert_eq!(
        MatrixError::Serialization.describe(),
        "the request body could not be serialized"
    );
    assert_eq!(MatrixError::UrlParse.describe(), "the assembled URL is not a valid absolute URL");
}

#[test]
fn moo_still_moos() {
    assert!(MatrixRequest::moo().contains("Have you mooed today?"));
}
