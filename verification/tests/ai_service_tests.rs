use deskpet::ai_service::{build_chat_url, build_image_url, extract_error_message, truncate_str};

#[test]
fn test_build_chat_url_full_path() {
    assert_eq!(
        build_chat_url("https://api.deepseek.com/v1/chat/completions"),
        "https://api.deepseek.com/v1/chat/completions"
    );
    assert_eq!(
        build_chat_url("https://api.example.com/v1/chat/completions/"),
        "https://api.example.com/v1/chat/completions"
    );
}

#[test]
fn test_build_chat_url_version_suffix() {
    assert_eq!(
        build_chat_url("https://api.deepseek.com/v1"),
        "https://api.deepseek.com/v1/chat/completions"
    );
    assert_eq!(
        build_chat_url("https://api.example.com/v2"),
        "https://api.example.com/v2/chat/completions"
    );
    assert_eq!(
        build_chat_url("https://api.example.com/api"),
        "https://api.example.com/api/chat/completions"
    );
}

#[test]
fn any_version_segment_gets_only_the_path() {
    assert_eq!(build_chat_url("https://api.example.com/v3"), "https://api.example.com/v3/chat/completions");
    assert_eq!(build_chat_url("https://api.example.com/v10/"), "https://api.example.com/v10/chat/completions");
    assert_eq!(build_image_url("https://api.example.com/v4"), "https://api.example.com/v4/images/generations");
    assert_eq!(build_chat_url("https://host/v3/proxy"), "https://host/v3/proxy/chat/completions");
    assert_eq!(build_chat_url("https://host/vx"), "https://host/vx/v1/chat/completions");
    assert_eq!(build_chat_url("https://host/v"), "https://host/v/v1/chat/completions");
}

#[test]
fn test_build_chat_url_mid_path() {
    assert_eq!(
        build_chat_url("https://example.com/v1/"),
        "https://example.com/v1/chat/completions"
    );
    assert_eq!(
        build_chat_url("https://example.com/api/v1"),
        "https://example.com/api/v1/chat/completions"
    );
}

#[test]
fn test_build_chat_url_bare_domain() {
    assert_eq!(
        build_chat_url("https://api.deepseek.com"),
        "https://api.deepseek.com/v1/chat/completions"
    );
}

#[test]
fn test_build_image_url() {
    assert_eq!(
        build_image_url("https://api.example.com/v1"),
        "https://api.example.com/v1/images/generations"
    );
    assert_eq!(
        build_image_url("https://api.example.com"),
        "https://api.example.com/v1/images/generations"
    );
    assert_eq!(
        build_image_url("https://api.example.com/v1/images/generations"),
        "https://api.example.com/v1/images/generations"
    );
}

#[test]
fn test_extract_error_message_html() {
    let html = "<!DOCTYPE html><html><body>404 Not Found</body></html>";
    let msg = extract_error_message(html);
    assert!(msg.contains("HTML 页面"));
    assert!(msg.contains("/v1"));
}

#[test]
fn test_extract_error_message_json() {
    let json = r#"{"error":{"message":"Invalid API key","type":"auth_error"}}"#;
    assert_eq!(extract_error_message(json), "Invalid API key");
    let json2 = r#"{"error":{"code":429}}"#;
    assert!(extract_error_message(json2).contains("429"));
}

#[test]
fn test_extract_error_message_plain_truncated() {
    let long = "x".repeat(500);
    let msg = extract_error_message(&long);
    assert!(msg.len() < 400);
    assert!(msg.ends_with("..."));
}

#[test]
fn test_truncate_str() {
    assert_eq!(truncate_str("短文本", 100), "短文本");
    let t = truncate_str("很长很长的文本", 4);
    assert!(t.ends_with("..."));
    assert!(t.chars().count() <= 8);
}

#[test]
fn truncate_str_keeps_exactly_max_chars() {
    assert_eq!(truncate_str("很长很长的文本", 4), "很长很长...");
    assert_eq!(truncate_str("abc", 3), "abc");
    assert_eq!(truncate_str("", 0), "");
}

#[test]
fn chat_url_is_idempotent() {
    let once = build_chat_url("https://api.deepseek.com");
    assert_eq!(build_chat_url(&once), once);
}

#[test]
fn plain_error_body_is_kept_when_short() {
    assert_eq!(extract_error_message("bad gateway"), "bad gateway");
}
