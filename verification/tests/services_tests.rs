use deskpet::screenshot_commands::{
    background_refusal, json_object_span, observation_prompt, observation_snippet,
    observed_activity, observed_activity_of, screenshot_question, screenshot_user_message, ScreenshotService,
};
use deskpet::emotion::CuriosityLevel;
use deskpet::sentiment_service::SentimentAnalyzer;
use deskpet::stt_service::SttService;
use deskpet::summarize_service::{summary_error_message, summary_request};
use deskpet::tts_service::EdgeTTS;
use deskpet::weather::{weather_api_error, weather_condition, weather_is_stale, weather_url, WeatherConfig};

#[test]
fn test_wav_header_format() {
    let samples: Vec<f32> = (0..16000)
        .map(|i| (i as f32 / 16000.0 * 440.0 * 6.283).sin())
        .collect();
    let pcm: Vec<i16> = samples.iter().map(|s| (s.clamp(-1.0, 1.0) * i16::MAX as f32) as i16).collect();
    let wav = SttService::wav_from_pcm16(&pcm, 16000, 1);
    assert_eq!(&wav[..4], b"RIFF");
    assert_eq!(&wav[8..12], b"WAVE");
    assert_eq!(&wav[12..16], b"fmt ");
    assert_eq!(&wav[20..22], &1u16.to_le_bytes());
    assert_eq!(&wav[22..24], &1u16.to_le_bytes());
    assert_eq!(&wav[24..28], &16000u32.to_le_bytes());
    assert_eq!(&wav[34..36], &16u16.to_le_bytes());
    assert_eq!(&wav[36..40], b"data");
    let data_len = wav.len() - 44;
    assert_eq!(data_len, samples.len() * 2);
    assert_eq!(&wav[40..44], &(data_len as u32).to_le_bytes());
}

#[test]
fn wav_header_fields_and_samples() {
    let h = SttService::wav_header(44100, 2, 3);
    assert_eq!(h.len(), 44);
    assert_eq!(&h[4..8], &(36u32 + 6).to_le_bytes());
    assert_eq!(&h[28..32], &(44100u32 * 2 * 2).to_le_bytes());
    assert_eq!(&h[32..34], &4u16.to_le_bytes());
    let w = SttService::wav_from_pcm16(&vec![-1i16, 256], 8000, 1);
    assert_eq!(&w[44..], &[0xFF, 0xFF, 0x00, 0x01]);
}

#[test]
fn transcription_helpers() {
    assert_eq!(SttService::transcription_url("https://a.b/v1//"), "https://a.b/v1/audio/transcriptions");
    assert_eq!(SttService::transcript_text(r#"{"text":"  你好 "}"#).unwrap(), "你好");
    assert_eq!(SttService::transcript_text(r#"{"text":"  "}"#).unwrap_err(), "转写结果为空");
    assert_eq!(SttService::transcript_text(r#"{}"#).unwrap_err(), "转写结果为空");
    assert!(SttService::transcript_text("x").unwrap_err().starts_with("解析转写响应失败: "));
    assert_eq!(SttService::transcription_error("404 Not Found", "nope"), "语音转写失败 (404 Not Found): nope");
}

#[test]
fn screenshot_messages() {
    assert_eq!(screenshot_question(Some("这是什么")), "这是什么");
    assert!(screenshot_question(None).starts_with("请看看这张截图"));
    assert_eq!(screenshot_user_message(Some("这是什么")), "📷 这是什么");
    assert_eq!(screenshot_user_message(None), "📷 截图");
    assert!(ScreenshotService::capture_screen().is_err());
    let _s = ScreenshotService::new();
}

#[test]
fn background_look_gate() {
    assert_eq!(background_refusal(false, true, CuriosityLevel::Enhanced), Some("AI not configured"));
    assert_eq!(background_refusal(true, false, CuriosityLevel::Enhanced), Some("No ghost"));
    assert_eq!(background_refusal(true, true, CuriosityLevel::Normal), Some("Not in Enhanced mode"));
    assert_eq!(background_refusal(true, true, CuriosityLevel::Enhanced), None);
}

#[test]
fn observation_reading() {
    assert!(observation_prompt("小花").starts_with("你是小花，一个桌宠。"));
    assert_eq!(json_object_span("好的 {\"a\":1} 完"), Some("{\"a\":1}".to_string()));
    assert_eq!(json_object_span("} {"), None);
    assert_eq!(observed_activity("看：{\"activity\":\"主人在写代码\"}").unwrap(), "主人在写代码");
    assert_eq!(observed_activity("{\"openness\":1}").unwrap(), "主人正在使用电脑");
    assert_eq!(observed_activity("没有JSON").unwrap_err(), "Parse error");
    assert_eq!(observed_activity("{oops}").unwrap_err(), "JSON parse error");
    assert_eq!(observation_snippet("主人在写代码"), "(好奇观察) 主人在写代码");
}

#[test]
fn sentiment_prompts() {
    let (system, user) = SentimentAnalyzer::prompts("你真棒", "谢谢", "小花");
    assert!(system.starts_with("你是小花内部的情感分析系统。"));
    assert!(system.contains("JSON格式如下：\n{\n\"event_type\": \"事件类型之一\",\n"));
    assert_eq!(user, "分析以下对话：\n\n主人说：你真棒\n\n小花回复：谢谢\n\n请输出JSON分析结果。");
    assert_eq!(SentimentAnalyzer::parse_error_message("e", "abc"), "情感分析JSON解析失败: e (原文: abc)");
    assert_eq!(SentimentAnalyzer::event_type_or_default(None), "NormalChat");
    assert_eq!(SentimentAnalyzer::snippet_or_none(Some("")), None);
    assert_eq!(SentimentAnalyzer::snippet_or_none(Some("好")), Some("好".to_string()));
}

#[test]
fn summary_request_cuts_long_works() {
    let (system, user) = summary_request("猫", "短文");
    assert!(system.ends_with("作品标题：《猫》"));
    assert_eq!(user, "请分析以下作品的全文内容，并返回结构化的摘要JSON：\n\n短文\n\n---\n请只返回JSON，不要其他内容。");
    let long: String = std::iter::repeat('字').take(50001).collect();
    let (_, user2) = summary_request("长", &long);
    assert!(user2.contains("（注意：原文过长，已截取前50000字，可能丢失后文内容）\n\n"));
    assert_eq!(user2.chars().filter(|c| *c == '字').count(), 50000 + 1);
    assert_eq!(summary_error_message("bad", "resp"), "摘要JSON解析失败: bad，原始响应: resp");
}

#[test]
fn tts_defaults() {
    let _t = EdgeTTS::new();
    assert_eq!(EdgeTTS::voices().len(), 8);
    assert_eq!(EdgeTTS::voices()[0], ("zh-CN-XiaoxiaoNeural", "晓晓 (女/活泼)"));
    assert_eq!(EdgeTTS::voice_or_default(None), "zh-CN-XiaoxiaoNeural");
    assert_eq!(EdgeTTS::checked_audio(vec![]).unwrap_err(), "Edge TTS 未返回音频数据");
    assert_eq!(EdgeTTS::checked_audio(vec![1]).unwrap(), vec![1]);
}

#[test]
fn weather_request_and_staleness() {
    let c = WeatherConfig { api_key: "K".to_string(), city: "北京 a".to_string() };
    assert_eq!(
        weather_url(&c),
        "https://api.openweathermap.org/data/2.5/weather?q=%E5%8C%97%E4%BA%AC%20a&appid=K&lang=zh_cn&units=metric"
    );
    assert!(weather_is_stale(None, 0));
    assert!(!weather_is_stale(Some(0), 1_799_999));
    assert!(weather_is_stale(Some(0), 1_800_000));
    assert_eq!(weather_api_error("401 Unauthorized", "{}"), "天气API返回错误 401 Unauthorized: {}");
    assert_eq!(weather_condition(None), "未知");
    assert_eq!(weather_condition(Some("晴")), "晴");
}

#[test]
fn activity_from_read_observation() {
    assert_eq!(observed_activity_of(Some(Some("写代码".into()))).unwrap(), "写代码");
    assert_eq!(observed_activity_of(Some(None)).unwrap(), "主人正在使用电脑");
    assert_eq!(observed_activity_of(None).unwrap_err(), "JSON parse error");
}

#[test]
fn transcript_from_read_field() {
    assert_eq!(SttService::transcript_text_of(Ok(Some("  你好 ".into()))).unwrap(), "你好");
    assert_eq!(SttService::transcript_text_of(Ok(Some("   ".into()))).unwrap_err(), "转写结果为空");
    assert_eq!(SttService::transcript_text_of(Ok(None)).unwrap_err(), "转写结果为空");
    assert_eq!(SttService::transcript_text_of(Err("eof".into())).unwrap_err(), "解析转写响应失败: eof");
}
