use fetcher::bridge::{conclude, rejection_error, Event, Rejection};
use fetcher::wire;
use fetcher::Response;

fn failed(outcome: Result<Response, fetcher::FetcherError>) -> String {
    match outcome {
        Ok(_) => panic!("the fetch succeeded"),
        Err(error) => error.message(),
    }
}

#[test]
fn text_rejection_keeps_its_text() {
    let error = rejection_error(Rejection::Text("network down".to_string()));
    assert_eq!(error.message(), "network down");
}

#[test]
fn object_rejection_keeps_its_description() {
    let error = rejection_error(Rejection::Object("Error: network down".to_string()));
    assert_eq!(error.message(), "Error: network down");
    assert!(error.message().contains("network down"));
}

#[test]
fn rejection_without_text_gets_the_generic_message() {
    assert_eq!(
        rejection_error(Rejection::Text(String::new())).message(),
        "bridge invocation failed"
    );
    assert_eq!(
        rejection_error(Rejection::Object(String::new())).message(),
        "bridge invocation failed"
    );
}

#[test]
fn rejected_call_fails_with_the_rejection() {
    let outcome = conclude(Event::Rejected(Rejection::Text("network down".to_string())));
    assert!(failed(outcome).contains("network down"));
}

#[test]
fn throwing_callback_fails_with_the_rejection() {
    let outcome = conclude(Event::Threw(Rejection::Object(
        "TypeError: fetcher is not a function".to_string(),
    )));
    assert_eq!(failed(outcome), "TypeError: fetcher is not a function");
    let outcome = conclude(Event::Threw(Rejection::Object(String::new())));
    assert_eq!(failed(outcome), "bridge invocation failed");
}

#[test]
fn unsendable_request_fails_with_the_reason() {
    let outcome = conclude(Event::Unsendable("cannot serialise".to_string()));
    assert_eq!(failed(outcome), "cannot serialise");
}

#[test]
fn malformed_result_fails_with_the_reason() {
    let outcome = conclude(Event::Malformed("missing field `status`".to_string()));
    assert_eq!(failed(outcome), "missing field `status`");
}

#[test]
fn resolved_call_yields_the_response() {
    let outcome = conclude(Event::Resolved(wire::Response {
        status: 200,
        headers: vec![("Content-Type".to_string(), "text/plain".to_string())],
        bytes: b"hello".to_vec(),
    }));
    let response = outcome.ok().unwrap();
    assert_eq!(response.status, 200);
    assert_eq!(response.headers.get("content-type").unwrap(), "text/plain");
    assert_eq!(response.bytes, b"hello".to_vec());
}

#[test]
fn resolved_call_with_malformed_header_fails() {
    let outcome = conclude(Event::Resolved(wire::Response {
        status: 200,
        headers: vec![("x-a".to_string(), "a\nb".to_string())],
        bytes: Vec::new(),
    }));
    assert_eq!(failed(outcome), "invalid header value");
}
