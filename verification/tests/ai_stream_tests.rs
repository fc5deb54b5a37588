use deskpet::ai_service::{
    api_error_message, check_api_key, image_content, image_content_of, image_settings, reply_content,
    reply_content_of,
    request_messages, vision_model, AIProviderConfig, ApiCall, ChatMessage, StreamDecoder,
};

fn config() -> AIProviderConfig {
    AIProviderConfig {
        endpoint: "https://api.example.com/v1".to_string(),
        api_key: "sk-1".to_string(),
        model: "chat-model".to_string(),
        vision_model: None,
        image_model: None,
        image_gen_endpoint: None,
        image_gen_api_key: Some("sk-img".to_string()),
        is_default: true,
        stt_endpoint: None,
        stt_api_key: None,
        stt_model: None,
    }
}

#[test]
fn stream_pieces_are_reassembled_across_chunks() {
    let mut d = StreamDecoder::new();
    let s1 = d.feed(": keep-alive\n\ndata: {\"choices\":[{\"delta\":{\"content\":\"你\"}}]}\ndata:{\"choi");
    assert_eq!(s1.tokens, vec!["你".to_string()]);
    assert!(!s1.done);
    let s2 = d.feed("ces\":[{\"delta\":{\"content\":\"好\"}}]}\nevent: x\ndata: {\"choices\":[{\"delta\":{\"reasoning_content\":\"想\"}}]}\n");
    assert_eq!(s2.tokens, vec!["好".to_string()]);
    assert!(!s2.done);
    let s3 = d.feed("data: [DONE]\ndata: {\"choices\":[{\"delta\":{\"content\":\"多余\"}}]}\n");
    assert!(s3.done);
    assert!(s3.tokens.is_empty());
    assert_eq!(d.full_response, "你好");
}

#[test]
fn stream_keeps_incomplete_line() {
    let mut d = StreamDecoder::new();
    let s = d.feed("data: {\"choices\":[{\"delta\":{\"content\":\"a\"}}]}");
    assert!(s.tokens.is_empty());
    assert_eq!(d.buffer, "data: {\"choices\":[{\"delta\":{\"content\":\"a\"}}]}");
    let s2 = d.feed("\r\n");
    assert_eq!(s2.tokens, vec!["a".to_string()]);
    assert_eq!(d.buffer, "");
}

#[test]
fn api_error_messages_name_the_call() {
    let m = api_error_message(ApiCall::Chat, 401, r#"{"error":{"message":"bad key"}}"#, "https://x/chat");
    assert_eq!(m, "AI API 错误 [401]: bad key (URL: https://x/chat)");
    let m2 = api_error_message(ApiCall::Image, 500, "oops", "u");
    assert_eq!(m2, "生图 API 错误 [500]: oops (URL: u)");
}

#[test]
fn api_key_is_required() {
    assert!(check_api_key("sk", ApiCall::Chat).is_ok());
    assert_eq!(
        check_api_key("  ", ApiCall::Stream).unwrap_err(),
        "API Key 为空，请在「配置 AI 接口」中填写您的 API Key"
    );
    assert_eq!(check_api_key("", ApiCall::Vision).unwrap_err(), "API Key 为空，请先配置 AI 接口");
}

#[test]
fn reply_content_prefers_content_then_reasoning() {
    let body = r#"{"choices":[{"message":{"content":"答案"}}]}"#;
    assert_eq!(reply_content(ApiCall::Chat, body).unwrap(), "答案");
    let thinking = r#"{"choices":[{"message":{"content":"","reasoning_content":"思考"}}]}"#;
    assert_eq!(reply_content(ApiCall::Chat, thinking).unwrap(), "思考");
    let none = r#"{"choices":[]}"#;
    assert_eq!(
        reply_content(ApiCall::Vision, none).unwrap_err(),
        format!("AI 视觉响应格式异常\n响应: {none}")
    );
    assert!(reply_content(ApiCall::Chat, "not json").unwrap_err().starts_with("解析JSON失败: "));
}

#[test]
fn image_reply_gives_data_or_url() {
    assert_eq!(image_content(r#"{"data":[{"b64_json":"QUJD"}]}"#).unwrap(), "QUJD");
    assert_eq!(image_content(r#"{"data":[{"url":"https://i/x.png"}]}"#).unwrap(), "url:https://i/x.png");
    assert!(image_content(r#"{"data":[]}"#).unwrap_err().starts_with("生图响应格式异常\n响应: "));
}

#[test]
fn settings_fall_back_to_chat_settings() {
    let c = config();
    assert_eq!(vision_model(&c), "chat-model");
    let (model, endpoint, key) = image_settings(&c);
    assert_eq!(model, "dall-e-3");
    assert_eq!(endpoint, "https://api.example.com/v1");
    assert_eq!(key, "sk-img");
}

#[test]
fn request_messages_start_with_the_system_prompt() {
    let msgs = vec![ChatMessage { role: "user".to_string(), content: "hi".to_string() }];
    let r = request_messages("sys", &msgs);
    assert_eq!(r.len(), 2);
    assert_eq!(r[0].role, "system");
    assert_eq!(r[0].content, "sys");
    assert_eq!(r[1].content, "hi");
}

#[test]
fn reply_text_from_read_fields() {
    let body = "{}";
    assert_eq!(reply_content_of(ApiCall::Chat, body, Ok((Some("hi".into()), None))).unwrap(), "hi");
    assert_eq!(reply_content_of(ApiCall::Chat, body, Ok((Some(String::new()), Some("think".into())))).unwrap(), "think");
    assert_eq!(
        reply_content_of(ApiCall::Vision, body, Ok((None, None))).unwrap_err(),
        "AI 视觉响应格式异常\n响应: {}"
    );
    assert_eq!(
        reply_content_of(ApiCall::Chat, "x", Err("bad".into())).unwrap_err(),
        "解析JSON失败: bad\n原始响应: x"
    );
}

#[test]
fn image_text_from_read_fields() {
    assert_eq!(image_content_of("{}", Ok((Some("QUJD".into()), Some("u".into())))).unwrap(), "QUJD");
    assert_eq!(image_content_of("{}", Ok((None, Some("http://p".into())))).unwrap(), "url:http://p");
    assert_eq!(image_content_of("{}", Ok((None, None))).unwrap_err(), "生图响应格式异常\n响应: {}");
}
