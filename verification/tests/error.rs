use fetcher::FetcherError;

#[test]
fn error_carries_its_message() {
    let error = FetcherError::new("connection reset".to_string());
    assert_eq!(error.message(), "connection reset");
    assert_eq!(error.message(), error.message());
}

#[test]
fn error_may_carry_an_empty_message() {
    assert_eq!(FetcherError::new(String::new()).message(), "");
}
