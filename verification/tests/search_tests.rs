use kagi_cli::error::KagiError;
use kagi_cli::http::{error_body_suffix, kagi_news_url, kagi_translate_url, kagi_url};
use kagi_cli::search::{
    build_news_search_query_params, build_search_query_params, format_api_error_suffix,
    validate_lens_value, NewsFreshness, NewsSearchOrder, NewsSearchRequest, SearchRequest,
};

#[test]
fn builds_default_urls() {
    assert_eq!(kagi_url(None, "/api/v1/search"), "https://kagi.com/api/v1/search");
    assert_eq!(
        kagi_news_url(None, "/api/batches/latest"),
        "https://news.kagi.com/api/batches/latest"
    );
    assert_eq!(
        kagi_translate_url(None, "/api/translate"),
        "https://translate.kagi.com/api/translate"
    );
}

#[test]
fn honors_base_url_overrides() {
    assert_eq!(
        kagi_url(Some("http://127.0.0.1:9000/"), "/api/v1/search"),
        "http://127.0.0.1:9000/api/v1/search"
    );
    assert_eq!(
        kagi_news_url(Some("http://127.0.0.1:9001/"), "/api/batches/latest"),
        "http://127.0.0.1:9001/api/batches/latest"
    );
    assert_eq!(
        kagi_translate_url(Some("http://127.0.0.1:9002/"), "/api/translate"),
        "http://127.0.0.1:9002/api/translate"
    );
}

#[test]
fn formats_http_error_body_suffix() {
    let suffix = error_body_suffix("  rate   limit exceeded\nretry later  ");
    assert_eq!(suffix, "; response body: rate limit exceeded retry later");
}

#[test]
fn search_request_builder_creates_base_request() {
    let request = SearchRequest::new("rust lang");
    assert_eq!(request.query, "rust lang");
    assert!(request.lens.is_none());
    assert!(!request.requires_session_auth());
}

#[test]
fn search_request_with_lens_adds_lens() {
    let request = SearchRequest::new("rust lang").with_lens("2");
    assert_eq!(request.query, "rust lang");
    assert_eq!(request.lens, Some("2".to_string()));
    assert!(request.requires_session_auth());
}

#[test]
fn search_request_with_filters_requires_session_auth() {
    let request = SearchRequest::new("rust lang")
        .with_region("us")
        .with_time_filter("2")
        .with_order("4")
        .with_verbatim(true)
        .with_personalized(false);

    assert!(request.has_runtime_filters());
    assert!(request.requires_session_auth());
}

#[test]
fn validate_lens_value_rejects_non_numeric_indices() {
    let error = validate_lens_value("forums").expect_err("non-numeric lens should fail");
    assert!(matches!(error, KagiError::Config(_)));
}

#[test]
fn reject_time_filter_with_date_range() {
    let error = SearchRequest::new("rust")
        .with_time_filter("2")
        .with_from_date("2026-03-01")
        .validate()
        .expect_err("time filter and custom date range should conflict");

    assert!(matches!(error, KagiError::Config(_)));
    assert!(error.to_string().contains("--time"));
}

#[test]
fn rejects_invalid_from_date_format() {
    let error = SearchRequest::new("rust")
        .with_from_date("2026-2-1")
        .validate()
        .expect_err("invalid date should fail");

    assert!(matches!(error, KagiError::Config(_)));
    assert!(error.to_string().contains("YYYY-MM-DD"));
}

#[test]
fn rejects_nonexistent_iso_dates() {
    let error = SearchRequest::new("rust")
        .with_to_date("2026-02-30")
        .validate()
        .expect_err("nonexistent date should fail");

    assert!(matches!(error, KagiError::Config(_)));
}

#[test]
fn rejects_inverted_date_range() {
    let error = SearchRequest::new("rust")
        .with_from_date("2026-03-02")
        .with_to_date("2026-03-01")
        .validate()
        .expect_err("inverted date range should fail");

    assert!(matches!(error, KagiError::Config(_)));
    assert!(error.to_string().contains("cannot be after"));
}

#[test]
fn builds_query_params_for_search_filters() {
    let request = SearchRequest::new("rust lang")
        .with_lens("2")
        .with_region("us")
        .with_order("4")
        .with_from_date("2026-03-01")
        .with_to_date("2026-03-02")
        .with_verbatim(true)
        .with_personalized(false);

    let params = build_search_query_params(&request).expect("query params should build");

    assert!(params.contains(&("q", "rust lang".to_string())));
    assert!(params.contains(&("l", "2".to_string())));
    assert!(params.contains(&("r", "us".to_string())));
    assert!(params.contains(&("order", "4".to_string())));
    assert!(params.contains(&("from_date", "2026-03-01".to_string())));
    assert!(params.contains(&("to_date", "2026-03-02".to_string())));
    assert!(params.contains(&("verbatim", "1".to_string())));
    assert!(params.contains(&("personalized", "0".to_string())));
}

#[test]
fn news_query_params_include_freshness_order_and_region() {
    let request = NewsSearchRequest {
        query: "iran".to_string(),
        region: Some("us".to_string()),
        freshness: Some(NewsFreshness::Day),
        order: Some(NewsSearchOrder::Recency),
        dir_desc: true,
        limit: None,
    };

    let params = build_news_search_query_params(&request);

    assert!(params.contains(&("q", "iran".to_string())));
    assert!(params.contains(&("r", "us".to_string())));
    assert!(params.contains(&("freshness", "day".to_string())));
    assert!(params.contains(&("order", "2".to_string())));
    assert!(params.contains(&("dir", "desc".to_string())));
}

#[test]
fn formats_search_api_error_suffix_from_error_payload() {
    let raw = r#"{
            "meta": { "id": "abc", "api_balance": 0.0 },
            "data": null,
            "error": [{ "code": 101, "msg": "Insufficient credit to perform this request.", "ref": null }]
        }"#;
    let payload: serde_json::Value = serde_json::from_str(raw.trim()).expect("payload parses");
    let first_error = payload["error"][0]["msg"].as_str();

    assert_eq!(
        format_api_error_suffix(raw, first_error),
        "; Insufficient credit to perform this request."
    );
}
