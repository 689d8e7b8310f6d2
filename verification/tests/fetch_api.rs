use vex_browser::fetch_api::{
    BodyContent, FetchHeaders, FetchRequest, FetchResponse, ReferrerPolicy, RequestCredentials,
    RequestMethod, RequestMode, ResponseType,
};

#[test]
fn request_method_from_name() {
    assert_eq!(RequestMethod::from_name("get"), RequestMethod::Get);
    assert_eq!(RequestMethod::from_name("POST"), RequestMethod::Post);
    assert_eq!(RequestMethod::from_name("PATCH"), RequestMethod::Patch);
    assert_eq!(
        RequestMethod::from_name("CUSTOM"),
        RequestMethod::Custom("CUSTOM".into())
    );
}

#[test]
fn request_method_safe() {
    assert!(RequestMethod::Get.is_safe());
    assert!(RequestMethod::Head.is_safe());
    assert!(!RequestMethod::Post.is_safe());
    assert!(!RequestMethod::Delete.is_safe());
}

#[test]
fn request_method_as_str() {
    assert_eq!(RequestMethod::Get.as_str(), "GET");
    assert_eq!(RequestMethod::Post.as_str(), "POST");
}

#[test]
fn headers_basic() {
    let mut h = FetchHeaders::new();
    assert!(h.is_empty());
    h.set("Content-Type", "text/html");
    assert_eq!(h.get("content-type"), Some("text/html"));
    assert!(h.has("Content-Type"));
    assert!(!h.has("X-Custom"));
    assert_eq!(h.len(), 1);
}

#[test]
fn headers_append_multi() {
    let mut h = FetchHeaders::new();
    h.append("Accept", "text/html");
    h.append("Accept", "application/json");
    assert_eq!(h.get("accept"), Some("text/html"));
    assert_eq!(
        h.get_all("accept"),
        Some("text/html, application/json".to_string())
    );
}

#[test]
fn headers_delete() {
    let mut h = FetchHeaders::new();
    h.set("X-Custom", "value");
    assert!(h.has("x-custom"));
    h.delete("x-custom");
    assert!(!h.has("x-custom"));
}

#[test]
fn headers_case_insensitive() {
    let mut h = FetchHeaders::new();
    h.set("Content-Type", "text/html");
    assert_eq!(h.get("CONTENT-TYPE"), Some("text/html"));
    assert_eq!(h.get("content-type"), Some("text/html"));
}

#[test]
fn headers_forbidden() {
    assert!(FetchHeaders::is_forbidden_header("cookie"));
    assert!(FetchHeaders::is_forbidden_header("Host"));
    assert!(FetchHeaders::is_forbidden_header("Sec-Fetch-Mode"));
    assert!(FetchHeaders::is_forbidden_header("Proxy-Authorization"));
    assert!(!FetchHeaders::is_forbidden_header("X-Custom"));
    assert!(!FetchHeaders::is_forbidden_header("Accept"));
}

#[test]
fn body_text() {
    let body = BodyContent::Text("hello".into());
    assert_eq!(body.byte_length(), 5);
    assert_eq!(body.as_text(), Some("hello".to_string()));
    assert_eq!(body.to_bytes(), b"hello");
    assert!(!body.is_none());
}

#[test]
fn body_bytes() {
    let body = BodyContent::Bytes(vec![1, 2, 3]);
    assert_eq!(body.byte_length(), 3);
    assert_eq!(body.to_bytes(), vec![1, 2, 3]);
}

#[test]
fn body_none() {
    let body = BodyContent::Empty;
    assert!(body.is_none());
    assert_eq!(body.byte_length(), 0);
    assert_eq!(body.as_text(), None);
}

#[test]
fn body_form_data() {
    let body = BodyContent::FormData(vec![("key".into(), "value".into())]);
    assert!(!body.is_none());
    let text = body.as_text().unwrap();
    assert!(text.contains("key=value"));
}

#[test]
fn request_get() {
    let req = FetchRequest::get("https://example.com");
    assert_eq!(req.url, "https://example.com");
    assert_eq!(req.method, RequestMethod::Get);
    assert!(!req.has_body());
    assert!(!req.method_allows_body());
}

#[test]
fn request_post_text() {
    let req = FetchRequest::post("https://example.com", "data");
    assert_eq!(req.method, RequestMethod::Post);
    assert!(req.has_body());
    assert!(req.method_allows_body());
    assert_eq!(
        req.headers.get("content-type"),
        Some("text/plain;charset=UTF-8")
    );
}

#[test]
fn request_post_json() {
    let req = FetchRequest::post_json("https://example.com", r#"{"a":1}"#);
    assert_eq!(req.headers.get("content-type"), Some("application/json"));
}

#[test]
fn response_ok() {
    let mut resp = FetchResponse::ok(BodyContent::Text("hello".into()));
    assert!(resp.ok_status());
    assert_eq!(resp.status, 200);
    assert!(!resp.body_used);
    let text = resp.text();
    assert_eq!(text, Some("hello".to_string()));
    assert!(resp.body_used);
    assert_eq!(resp.text(), None);
}

#[test]
fn response_error() {
    let resp = FetchResponse::error();
    assert_eq!(resp.response_type, ResponseType::Error);
    assert_eq!(resp.status, 0);
    assert!(!resp.ok_status());
}

#[test]
fn response_redirect() {
    let resp = FetchResponse::redirect("https://example.com/new", 301).unwrap();
    assert_eq!(resp.status, 301);
    assert!(resp.redirected);
    assert_eq!(
        resp.headers.get("location"),
        Some("https://example.com/new")
    );
}

#[test]
fn response_redirect_invalid_status() {
    assert!(FetchResponse::redirect("https://example.com", 200).is_none());
    assert!(FetchResponse::redirect("https://example.com", 404).is_none());
}

#[test]
fn response_bytes() {
    let mut resp = FetchResponse::ok(BodyContent::Bytes(vec![0xDE, 0xAD]));
    let bytes = resp.bytes().unwrap();
    assert_eq!(bytes, vec![0xDE, 0xAD]);
    assert!(resp.body_used);
}

#[test]
fn request_mode_roundtrip() {
    for mode in [
        RequestMode::Cors,
        RequestMode::NoCors,
        RequestMode::SameOrigin,
        RequestMode::Navigate,
    ] {
        assert_eq!(RequestMode::from_name(mode.as_str()), Some(mode));
    }
}

#[test]
fn credentials_roundtrip() {
    for cred in [
        RequestCredentials::Omit,
        RequestCredentials::SameOrigin,
        RequestCredentials::Include,
    ] {
        assert_eq!(RequestCredentials::from_name(cred.as_str()), Some(cred));
    }
}

#[test]
fn referrer_policy_roundtrip() {
    for p in [
        ReferrerPolicy::NoReferrer,
        ReferrerPolicy::NoReferrerWhenDowngrade,
        ReferrerPolicy::Origin,
        ReferrerPolicy::OriginWhenCrossOrigin,
        ReferrerPolicy::SameOrigin,
        ReferrerPolicy::StrictOrigin,
        ReferrerPolicy::StrictOriginWhenCrossOrigin,
        ReferrerPolicy::UnsafeUrl,
    ] {
        assert_eq!(ReferrerPolicy::from_name(p.as_str()), Some(p));
    }
}

#[test]
fn response_type_as_str() {
    assert_eq!(ResponseType::Basic.as_str(), "basic");
    assert_eq!(ResponseType::Opaque.as_str(), "opaque");
    assert_eq!(ResponseType::Error.as_str(), "error");
}

#[test]
fn headers_set_replaces_all_values() {
    let mut h = FetchHeaders::new();
    h.append("Accept", "a");
    h.append("accept", "b");
    h.set("ACCEPT", "c");
    assert_eq!(h.get_all("accept"), Some("c".to_string()));
    assert_eq!(h.len(), 1);
}

#[test]
fn body_form_data_joins_pairs() {
    let body = BodyContent::FormData(vec![
        ("a".into(), "1".into()),
        ("b".into(), "2".into()),
    ]);
    assert_eq!(body.as_text(), Some("a=1&b=2".to_string()));
    assert_eq!(body.byte_length(), 8);
}

#[test]
fn response_text_invalid_utf8_is_none() {
    let mut resp = FetchResponse::ok(BodyContent::Bytes(vec![0xFF, 0xFE]));
    assert_eq!(resp.text(), None);
    assert!(resp.body_used);
}
