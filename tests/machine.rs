use registry_check::codec::{decode_value, encode_value};
use registry_check::machine::{
    allocate, authentication, call, callback, reset, status, token, Continuation, Future,
};
use registry_check::value::Document;

fn text(s: &str) -> Document {
    Document::String(s.to_string())
}

fn object(entries: Vec<(&str, Document)>) -> Document {
    Document::Object(entries.into_iter().map(|(k, v)| (text(k), v)).collect())
}

fn incomplete() -> Document {
    object(vec![("complete", Document::Boolean(false))])
}

fn response(doc: &Document, context: &[u8]) -> Future {
    Future {
        data: encode_value(doc),
        callback: None,
        context: context.to_vec(),
        index: 0,
    }
}

#[test]
fn call_requests_manifest() {
    let input = encode_value(&object(vec![("spec", object(vec![("image", text("demo"))]))]));
    let f = call(&input);
    let url = "https://index.docker.io/v2/library/demo/manifests/latest";
    assert_eq!(Some(Continuation::Status), f.callback);
    assert_eq!(Some(object(vec![("url", text(url))])), decode_value(&f.data));
    assert_eq!(url.as_bytes().to_vec(), f.context);
    assert_eq!(0, f.index);
}

#[test]
fn call_without_image() {
    let input = encode_value(&object(vec![("spec", object(vec![("name", text("demo"))]))]));
    let f = call(&input);
    assert_eq!(None, f.callback);
    assert_eq!(Some(incomplete()), decode_value(&f.data));
    assert!(f.context.is_empty());
    let f = call(&encode_value(&object(vec![("spec", text("demo"))])));
    assert_eq!(None, f.callback);
    assert_eq!(Some(incomplete()), decode_value(&f.data));
}

#[test]
fn status_unauthorized_asks_for_token() {
    let doc = object(vec![
        ("status", Document::Integer(401)),
        (
            "headers",
            object(vec![("www-authenticate", text("Bearer realm=https://r,service=s,scope=sc"))]),
        ),
    ]);
    let f = status(&response(&doc, b"https://m"));
    assert_eq!(Some(Continuation::Token), f.callback);
    assert_eq!(Some(object(vec![("url", text("https://r?service=s&scope=sc"))])), decode_value(&f.data));
    assert_eq!(b"https://m".to_vec(), f.context);
}

#[test]
fn authentication_capitalized_header() {
    let doc = object(vec![(
        "headers",
        object(vec![("WWW-Authenticate", text("Bearer realm=\"https://r\",service=\"s\",scope=\"sc\""))]),
    )]);
    let f = authentication(&response(&doc, b""));
    assert_eq!(Some(Continuation::Token), f.callback);
    assert_eq!(Some(object(vec![("url", text("https://r?service=s&scope=sc"))])), decode_value(&f.data));
}

#[test]
fn authentication_error_challenge() {
    let doc = object(vec![(
        "headers",
        object(vec![("www-authenticate", text("Bearer realm=https://r,error=\"invalid_token\""))]),
    )]);
    let f = authentication(&response(&doc, b"ctx"));
    assert_eq!(None, f.callback);
    assert_eq!(Some(incomplete()), decode_value(&f.data));
    assert_eq!(b"ctx".to_vec(), f.context);
    let f = authentication(&response(&object(vec![("headers", object(vec![]))]), b""));
    assert_eq!(None, f.callback);
    assert_eq!(Some(incomplete()), decode_value(&f.data));
}

#[test]
fn token_reissues_manifest_request() {
    let doc = object(vec![("data", object(vec![("token", text("abc"))]))]);
    let url = "https://index.docker.io/v2/library/demo/manifests/latest";
    let f = token(&response(&doc, url.as_bytes()));
    assert_eq!(Some(Continuation::Status), f.callback);
    let expected = object(vec![
        ("url", text(url)),
        ("headers", object(vec![("authorization", text("Bearer abc"))])),
    ]);
    assert_eq!(Some(expected), decode_value(&f.data));
    assert_eq!(url.as_bytes().to_vec(), f.context);
}

#[test]
fn token_missing() {
    let doc = object(vec![("data", object(vec![("other", text("abc"))]))]);
    let f = token(&response(&doc, b"https://m"));
    assert_eq!(None, f.callback);
    assert_eq!(Some(incomplete()), decode_value(&f.data));
    let doc = object(vec![("data", object(vec![("token", text("abc"))]))]);
    let f = token(&response(&doc, &[0xff, 0xfe]));
    assert_eq!(None, f.callback);
    assert_eq!(Some(incomplete()), decode_value(&f.data));
}

#[test]
fn status_reports_digest() {
    let doc = object(vec![
        ("status", Document::Integer(200)),
        ("headers", object(vec![("docker-content-digest", text("sha256:xyz"))])),
    ]);
    let f = status(&response(&doc, b"https://m"));
    assert_eq!(None, f.callback);
    let expected = object(vec![
        ("complete", Document::Boolean(true)),
        ("latestImage", text("sha256:xyz")),
    ]);
    assert_eq!(Some(expected), decode_value(&f.data));
}

#[test]
fn status_header_fallback_and_absence() {
    let doc = object(vec![
        ("status", Document::Integer(200)),
        (
            "headers",
            object(vec![
                ("docker-content-digest", Document::Integer(5)),
                ("Docker-Content-Digest", text("sha256:abc")),
            ]),
        ),
    ]);
    let f = status(&response(&doc, b""));
    let expected = object(vec![
        ("complete", Document::Boolean(true)),
        ("latestImage", text("sha256:abc")),
    ]);
    assert_eq!(Some(expected), decode_value(&f.data));
    let doc = object(vec![("status", Document::Integer(404)), ("headers", object(vec![]))]);
    let f = status(&response(&doc, b""));
    assert_eq!(Some(incomplete()), decode_value(&f.data));
}

#[test]
fn malformed_input_gives_up_everywhere() {
    let bad = Future { data: vec![0xc1], callback: None, context: b"ctx".to_vec(), index: 0 };
    for f in [call(&[0xc1]), status(&bad), authentication(&bad), token(&bad)] {
        assert_eq!(None, f.callback);
        assert_eq!(Some(incomplete()), decode_value(&f.data));
    }
    let empty = Future { data: vec![], callback: None, context: vec![], index: 0 };
    assert_eq!(Some(incomplete()), decode_value(&status(&empty).data));
}

#[test]
fn callback_dispatches() {
    let doc = object(vec![("data", object(vec![("token", text("t"))]))]);
    let f = callback(Continuation::Token, &response(&doc, b"u"));
    assert_eq!(Some(Continuation::Status), f.callback);
    let f = callback(Continuation::Status, &response(&doc, b"u"));
    assert_eq!(None, f.callback);
    assert_eq!(Some(incomplete()), decode_value(&f.data));
}

#[test]
fn continuation_ids() {
    for c in [Continuation::Status, Continuation::Authentication, Continuation::Token] {
        assert_ne!(0, c.id());
        assert_eq!(Some(c), Continuation::from_id(c.id()));
    }
    assert_eq!(None, Continuation::from_id(0));
    assert_eq!(None, Continuation::from_id(4));
}

#[test]
fn allocate_and_reset() {
    assert_eq!(vec![0u8; 5], allocate(5));
    assert!(allocate(0).is_empty());
    let input = Future { data: vec![1, 2], callback: Some(Continuation::Status), context: b"c".to_vec(), index: 7 };
    let f = reset(&input);
    assert_eq!(None, f.callback);
    assert_eq!(b"c".to_vec(), f.context);
    assert_eq!(0, f.index);
    assert_eq!(Some(incomplete()), decode_value(&f.data));
}
