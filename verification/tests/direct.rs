use fetcher::direct::{dispatch, redirect_policy, RedirectPolicy};
use fetcher::Request;
use http::{HeaderMap, HeaderName, HeaderValue, Method};

#[test]
fn policy_follows_the_flag() {
    assert_eq!(redirect_policy(false), RedirectPolicy::Stop);
    assert_eq!(redirect_policy(true), RedirectPolicy::Follow);
}

#[test]
fn request_without_body_sends_an_empty_one() {
    let plan = dispatch(Request {
        url: "https://example.com".parse().unwrap(),
        method: Method::GET,
        body: None,
        headers: HeaderMap::new(),
        follow: false,
    });
    assert_eq!(plan.policy, RedirectPolicy::Stop);
    assert_eq!(plan.method, Method::GET);
    assert_eq!(plan.url.as_str(), "https://example.com/");
    assert!(plan.headers.is_empty());
    assert_eq!(plan.body, "");
}

#[test]
fn request_is_sent_as_it_is() {
    let mut headers = HeaderMap::new();
    headers.append(
        HeaderName::from_static("accept"),
        HeaderValue::from_static("*/*"),
    );
    let plan = dispatch(Request {
        url: "http://localhost:8080/path".parse().unwrap(),
        method: Method::PUT,
        body: Some("data".to_string()),
        headers: headers.clone(),
        follow: true,
    });
    assert_eq!(plan.policy, RedirectPolicy::Follow);
    assert_eq!(plan.method, Method::PUT);
    assert_eq!(plan.url.as_str(), "http://localhost:8080/path");
    assert_eq!(plan.headers, headers);
    assert_eq!(plan.body, "data");
}
