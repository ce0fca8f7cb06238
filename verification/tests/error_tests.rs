use yande_dl::error::CoreError;

#[test]
fn every_error_has_its_message() {
    assert_eq!(CoreError::Network("timed out".into()).message(), "network error: timed out");
    assert_eq!(
        CoreError::RateLimited { retry_after_secs: Some(60) }.message(),
        "rate limited (HTTP 429), retry after Some(60)s"
    );
    assert_eq!(
        CoreError::RateLimited { retry_after_secs: None }.message(),
        "rate limited (HTTP 429), retry after Nones"
    );
    assert_eq!(CoreError::Server { status: 503 }.message(), "server error: HTTP 503");
    assert_eq!(CoreError::Parse("bad json".into()).message(), "parse error: bad json");
    assert_eq!(CoreError::Io("denied".into()).message(), "io error: denied");
    assert_eq!(
        CoreError::Md5Mismatch { expected: "a".into(), actual: "b".into() }.message(),
        "md5 mismatch (expected a, got b)"
    );
    assert_eq!(
        CoreError::UnknownProvider("danbooru".into()).message(),
        "provider danbooru not found"
    );
    assert_eq!(CoreError::Cancelled.message(), "operation cancelled");
}
