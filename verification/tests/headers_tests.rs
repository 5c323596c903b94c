use api_switch::error::AppError;
use api_switch::transform::headers::{
    build_forwarded_headers, header_value_text, is_standard_hop_by_hop, parse_connection_tokens,
    HeaderEntry,
};
use axum::http::{HeaderMap, HeaderName, HeaderValue};

const SKIP_HEADERS: &[&str] = &[
    "authorization",
    "content-length",
    "host",
    "transfer-encoding",
    "connection",
    "keep-alive",
    "te",
    "trailers",
    "upgrade",
];

fn to_entries(map: &HeaderMap) -> Vec<HeaderEntry> {
    map.iter()
        .map(|(k, v)| HeaderEntry { name: k.as_str().to_string(), value: v.as_bytes().to_vec() })
        .collect()
}

fn to_map(entries: Vec<HeaderEntry>) -> HeaderMap {
    let mut map = HeaderMap::new();
    for e in entries {
        map.append(
            HeaderName::from_bytes(e.name.as_bytes()).unwrap(),
            HeaderValue::from_bytes(&e.value).unwrap(),
        );
    }
    map
}

fn forward(incoming: &HeaderMap, key: &str, sign: &str) -> Result<HeaderMap, AppError> {
    build_forwarded_headers(&to_entries(incoming), key, sign).map(to_map)
}

#[test]
fn test_filters_authorization_header() {
    let mut incoming = HeaderMap::new();
    incoming.insert("authorization", HeaderValue::from_static("Bearer token"));

    let result = forward(&incoming, "key", "sign").unwrap();

    assert!(result.get("authorization").is_none());
}

#[test]
fn test_filters_all_skip_headers() {
    let mut incoming = HeaderMap::new();
    incoming.insert("authorization", HeaderValue::from_static("Bearer token"));
    incoming.insert("content-length", HeaderValue::from_static("100"));
    incoming.insert("content-type", HeaderValue::from_static("application/json"));
    incoming.insert("host", HeaderValue::from_static("example.com"));
    incoming.insert("transfer-encoding", HeaderValue::from_static("chunked"));
    incoming.insert("connection", HeaderValue::from_static("keep-alive"));
    incoming.insert("keep-alive", HeaderValue::from_static("timeout=5"));
    incoming.insert("te", HeaderValue::from_static("trailers"));
    incoming.insert("trailers", HeaderValue::from_static("X-Trailers"));
    incoming.insert("upgrade", HeaderValue::from_static("websocket"));

    let result = forward(&incoming, "key", "sign").unwrap();

    for header in SKIP_HEADERS {
        assert!(result.get(*header).is_none(), "header '{}' should be filtered", header);
    }
}

#[test]
fn test_preserves_non_skip_headers() {
    let mut incoming = HeaderMap::new();
    incoming.insert("anthropic-version", HeaderValue::from_static("2023-06-01"));
    incoming.insert("x-custom", HeaderValue::from_static("custom-value"));

    let result = forward(&incoming, "key", "sign").unwrap();

    assert_eq!(result.get("anthropic-version").unwrap().to_str().unwrap(), "2023-06-01");
    assert_eq!(result.get("x-custom").unwrap().to_str().unwrap(), "custom-value");
}

#[test]
fn test_adds_app_key_and_app_sign() {
    let incoming = HeaderMap::new();
    let result = forward(&incoming, "my-key", "my-sign").unwrap();

    assert_eq!(result.get("app-key").unwrap().to_str().unwrap(), "my-key");
    assert_eq!(result.get("app-sign").unwrap().to_str().unwrap(), "my-sign");
}

#[test]
fn test_filters_connection_declared_hop_by_hop_headers() {
    let mut incoming = HeaderMap::new();
    incoming.insert("connection", HeaderValue::from_static("x-custom, x-another"));
    incoming.insert("x-custom", HeaderValue::from_static("should-be-filtered"));
    incoming.insert("x-another", HeaderValue::from_static("also-filtered"));
    incoming.insert("x-not-declared", HeaderValue::from_static("should-pass"));

    let result = forward(&incoming, "key", "sign").unwrap();

    assert!(result.get("x-custom").is_none(), "x-custom should be filtered");
    assert!(result.get("x-another").is_none(), "x-another should be filtered");
    assert!(result.get("x-not-declared").is_some(), "x-not-declared should pass");
}

#[test]
fn test_connection_case_insensitive_and_whitespace() {
    let mut incoming = HeaderMap::new();
    incoming.insert("connection", HeaderValue::from_static("  X-Custom ,  KEEP-ALIVE  , te "));
    incoming.insert("x-custom", HeaderValue::from_static("filtered"));
    incoming.insert("keep-alive", HeaderValue::from_static("filtered"));
    incoming.insert("te", HeaderValue::from_static("filtered"));
    incoming.insert("x-other", HeaderValue::from_static("passes"));

    let result = forward(&incoming, "key", "sign").unwrap();

    assert!(result.get("x-custom").is_none());
    assert!(result.get("keep-alive").is_none());
    assert!(result.get("te").is_none());
    assert!(result.get("x-other").is_some());
}

#[test]
fn test_empty_incoming_headers() {
    let incoming = HeaderMap::new();
    let result = forward(&incoming, "key", "sign").unwrap();

    assert_eq!(result.len(), 2);
    assert_eq!(result.get("app-key").unwrap().to_str().unwrap(), "key");
    assert_eq!(result.get("app-sign").unwrap().to_str().unwrap(), "sign");
}

#[test]
fn test_invalid_app_key_returns_error() {
    let incoming = HeaderMap::new();
    let result = forward(&incoming, "key\u{0001}", "sign");

    assert!(result.is_err());
}

#[test]
fn test_invalid_app_sign_returns_error() {
    let incoming = HeaderMap::new();
    let result = forward(&incoming, "key", "sign\u{007F}");

    assert!(result.is_err());
}

#[test]
fn invalid_credentials_are_api_errors_with_their_own_messages() {
    match build_forwarded_headers(&Vec::new(), "bad\u{0001}", "bad\u{007F}") {
        Err(AppError::ApiError(m)) => assert_eq!(m, "Invalid app_key value"),
        _ => panic!("expected the app_key error"),
    }
    match build_forwarded_headers(&Vec::new(), "good", "bad\u{007F}") {
        Err(AppError::ApiError(m)) => assert_eq!(m, "Invalid app_sign value"),
        _ => panic!("expected the app_sign error"),
    }
}

#[test]
fn credentials_replace_client_values_and_keep_order() {
    let incoming = vec![
        HeaderEntry { name: "x-a".into(), value: b"1".to_vec() },
        HeaderEntry { name: "app-key".into(), value: b"client".to_vec() },
        HeaderEntry { name: "x-a".into(), value: b"2".to_vec() },
        HeaderEntry { name: "app-key".into(), value: b"again".to_vec() },
    ];
    let result = build_forwarded_headers(&incoming, "k", "s").unwrap();
    let names: Vec<&str> = result.iter().map(|h| h.name.as_str()).collect();
    assert_eq!(names, vec!["x-a", "app-key", "x-a", "app-sign"]);
    assert_eq!(result[0].value, b"1".to_vec());
    assert_eq!(result[1].value, b"k".to_vec());
    assert_eq!(result[2].value, b"2".to_vec());
    assert_eq!(result[3].value, b"s".to_vec());
}

#[test]
fn every_value_of_a_repeated_header_is_forwarded_in_order() {
    let mut incoming = HeaderMap::new();
    incoming.append("x-trace", HeaderValue::from_static("a"));
    incoming.append("x-trace", HeaderValue::from_static("b"));
    incoming.append("x-trace", HeaderValue::from_static("c"));
    incoming.append("authorization", HeaderValue::from_static("Bearer t"));
    let result = forward(&incoming, "key", "sign").unwrap();
    let values: Vec<&str> = result.get_all("x-trace").iter().map(|v| v.to_str().unwrap()).collect();
    assert_eq!(values, vec!["a", "b", "c"]);
    assert!(result.get("authorization").is_none());
    assert_eq!(result.len(), 5);
}

#[test]
fn non_ascii_credentials_are_forwarded_as_utf8() {
    let result = build_forwarded_headers(&Vec::new(), "clé", "s").unwrap();
    assert_eq!(result[0].value, "clé".as_bytes().to_vec());
}

#[test]
fn only_the_first_connection_value_declares_hop_by_hop() {
    let incoming = vec![
        HeaderEntry { name: "connection".into(), value: b"x-one".to_vec() },
        HeaderEntry { name: "connection".into(), value: b"x-two".to_vec() },
        HeaderEntry { name: "x-one".into(), value: b"a".to_vec() },
        HeaderEntry { name: "x-two".into(), value: b"b".to_vec() },
    ];
    let result = build_forwarded_headers(&incoming, "k", "s").unwrap();
    let names: Vec<&str> = result.iter().map(|h| h.name.as_str()).collect();
    assert_eq!(names, vec!["x-two", "app-key", "app-sign"]);
}

#[test]
fn connection_value_that_is_not_visible_ascii_declares_nothing() {
    let incoming = vec![
        HeaderEntry { name: "connection".into(), value: vec![b'x', b'-', b'o', 0xC3, 0xA9] },
        HeaderEntry { name: "x-o".into(), value: b"kept".to_vec() },
    ];
    let result = build_forwarded_headers(&incoming, "k", "s").unwrap();
    assert_eq!(result[0].name, "x-o");
}

#[test]
fn parse_connection_tokens_trims_lowercases_and_dedups() {
    let tokens = parse_connection_tokens("  X-Custom ,, keep-alive,x-custom , ");
    assert_eq!(tokens, vec!["x-custom".to_string(), "keep-alive".to_string()]);
    assert!(parse_connection_tokens("").is_empty());
    assert!(parse_connection_tokens(" , ,").is_empty());
}

#[test]
fn header_value_text_accepts_visible_ascii_and_tab_only() {
    assert_eq!(header_value_text(&b"a b\tc".to_vec()), Some("a b\tc".to_string()));
    assert_eq!(header_value_text(&vec![b'a', 0x7F]), None);
    assert_eq!(header_value_text(&vec![0xC3, 0xA9]), None);
    assert_eq!(header_value_text(&Vec::new()), Some(String::new()));
}

#[test]
fn standard_hop_by_hop_names() {
    for name in SKIP_HEADERS {
        assert!(is_standard_hop_by_hop(name));
    }
    assert!(!is_standard_hop_by_hop("content-type"));
    assert!(!is_standard_hop_by_hop("Authorization"));
}
