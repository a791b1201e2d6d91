use fetcher::wire;
use fetcher::wire::Field;
use fetcher::{Request, Response};
use http::{HeaderMap, HeaderName, HeaderValue, Method};

fn pair(name: &str, value: &str) -> (String, String) {
    (name.to_string(), value.to_string())
}

fn get(url: &str) -> Request {
    Request {
        url: url.parse().unwrap(),
        method: Method::GET,
        body: None,
        headers: HeaderMap::new(),
        follow: false,
    }
}

#[test]
fn plain_get_in_wire_form() {
    let wire = get("https://example.com").to_wire();
    assert_eq!(wire.url, "https://example.com/");
    assert_eq!(wire.method, "GET");
    assert_eq!(wire.headers, Vec::<(String, String)>::new());
    assert_eq!(wire.body, None);
    assert!(!wire.follow);
}

#[test]
fn post_with_body_in_wire_form() {
    let mut request = get("https://example.com/a?b=c");
    request.method = Method::POST;
    request.body = Some("payload".to_string());
    request.follow = true;
    request.headers.append(
        HeaderName::from_static("content-type"),
        HeaderValue::from_static("text/plain"),
    );
    let wire = request.to_wire();
    assert_eq!(wire.url, "https://example.com/a?b=c");
    assert_eq!(wire.method, "POST");
    assert_eq!(wire.headers, vec![pair("content-type", "text/plain")]);
    assert_eq!(wire.body, Some("payload".to_string()));
    assert!(wire.follow);
}

#[test]
fn empty_body_is_still_a_body() {
    let mut request = get("https://example.com");
    request.body = Some(String::new());
    let wire = request.to_wire();
    assert_eq!(wire.body, Some(String::new()));
    assert_eq!(wire.fields().len(), 5);
}

#[test]
fn record_without_body_has_four_fields() {
    let wire = get("https://example.com").to_wire();
    assert_eq!(
        wire.fields(),
        vec![Field::Url, Field::Method, Field::Headers, Field::Follow]
    );
}

#[test]
fn record_with_body_has_five_fields() {
    let mut request = get("https://example.com");
    request.body = Some("x".to_string());
    assert_eq!(
        request.to_wire().fields(),
        vec![
            Field::Url,
            Field::Method,
            Field::Headers,
            Field::Body,
            Field::Follow
        ]
    );
}

#[test]
fn field_names() {
    assert_eq!(Field::Url.name(), "url");
    assert_eq!(Field::Method.name(), "method");
    assert_eq!(Field::Headers.name(), "headers");
    assert_eq!(Field::Body.name(), "body");
    assert_eq!(Field::Follow.name(), "follow");
}

#[test]
fn ok_response_with_text_body() {
    let wire = wire::Response {
        status: 200,
        headers: vec![pair("content-type", "text/plain")],
        bytes: b"hello".to_vec(),
    };
    let response = Response::from_wire(wire).ok().unwrap();
    assert_eq!(response.status, 200);
    assert_eq!(response.headers.len(), 1);
    assert_eq!(response.headers.get("content-type").unwrap(), "text/plain");
    assert_eq!(response.bytes, b"hello".to_vec());
    assert_eq!(response.text(), "hello");
}

#[test]
fn redirect_response_is_taken_as_it_is() {
    let wire = wire::Response {
        status: 302,
        headers: vec![pair("Location", "https://example.com/next")],
        bytes: Vec::new(),
    };
    let response = Response::from_wire(wire).ok().unwrap();
    assert_eq!(response.status, 302);
    assert_eq!(
        response.headers.get("location").unwrap(),
        "https://example.com/next"
    );
    assert_eq!(response.bytes, Vec::<u8>::new());
}

#[test]
fn response_with_malformed_header_is_an_error() {
    let wire = wire::Response {
        status: 200,
        headers: vec![pair("content type", "text/plain")],
        bytes: b"hello".to_vec(),
    };
    match Response::from_wire(wire) {
        Ok(_) => panic!("the response was accepted"),
        Err(error) => assert_eq!(error.message(), "invalid header name"),
    }
}

#[test]
fn body_bytes_survive_the_wire() {
    let bodies: Vec<Vec<u8>> = vec![
        Vec::new(),
        b"plain".to_vec(),
        vec![0xff, 0x00, 0xc3, 0x28, 0x80],
        (0..=255).collect(),
    ];
    for bytes in bodies {
        let response = Response {
            status: 206,
            headers: HeaderMap::new(),
            bytes: bytes.clone(),
        };
        let wire = response.to_wire();
        assert_eq!(wire.status, 206);
        assert_eq!(wire.bytes, bytes);
        let back = Response::from_wire(wire).ok().unwrap();
        assert_eq!(back.status, 206);
        assert_eq!(back.bytes, bytes);
    }
}

#[test]
fn response_round_trips_through_wire_form() {
    let mut headers = HeaderMap::new();
    headers.append(
        HeaderName::from_static("content-type"),
        HeaderValue::from_static("text/plain"),
    );
    headers.append(
        HeaderName::from_static("vary"),
        HeaderValue::from_static("accept"),
    );
    headers.append(
        HeaderName::from_static("vary"),
        HeaderValue::from_static("origin"),
    );
    let response = Response {
        status: 404,
        headers: headers.clone(),
        bytes: b"missing".to_vec(),
    };
    let wire = response.to_wire();
    assert_eq!(
        wire.headers,
        vec![
            pair("content-type", "text/plain"),
            pair("vary", "accept"),
            pair("vary", "origin")
        ]
    );
    let back = Response::from_wire(wire).ok().unwrap();
    assert_eq!(back.status, 404);
    assert_eq!(back.headers, headers);
    assert_eq!(back.bytes, b"missing".to_vec());
}

#[test]
fn text_of_valid_utf8() {
    let response = Response {
        status: 200,
        headers: HeaderMap::new(),
        bytes: "gr\u{fc}\u{df}e \u{1f600}".as_bytes().to_vec(),
    };
    assert_eq!(response.text(), "gr\u{fc}\u{df}e \u{1f600}");
    assert_eq!(response.text(), response.text());
}

#[test]
fn text_of_empty_body() {
    let response = Response {
        status: 204,
        headers: HeaderMap::new(),
        bytes: Vec::new(),
    };
    assert_eq!(response.text(), "");
}

#[test]
fn text_of_invalid_utf8_has_replacement_characters() {
    let response = Response {
        status: 200,
        headers: HeaderMap::new(),
        bytes: vec![b'a', 0xff, b'b', 0xc3, 0x28, b'c'],
    };
    assert_eq!(response.text(), "a\u{fffd}b\u{fffd}(c");
    assert_eq!(response.bytes, vec![b'a', 0xff, b'b', 0xc3, 0x28, b'c']);
}

#[test]
fn replacement_constant() {
    assert_eq!(fetcher::model::REPLACEMENT, '\u{fffd}');
}
