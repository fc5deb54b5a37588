use deskpet::chat_commands::{
    achievement_checks, append_prompt_context, build_document_context, chunk_summary,
    choose_chat_event_type, configure_ai, conversation_messages, diary_fragments, diary_prompt,
    exchange_description, get_achievement_desc, get_achievement_name, mentions_experience,
    reply_memory_summary, split_image_request, truncate,
};
use deskpet::chat_history::{ChatMessageRow, DocumentKnowledgeRow};

fn row(role: &str, content: &str) -> ChatMessageRow {
    ChatMessageRow {
        id: format!("{role}-{content}"),
        ghost_id: "g1".to_string(),
        role: role.to_string(),
        content: content.to_string(),
        created_at: "2026-01-01 00:00:00".to_string(),
    }
}

fn doc(title: &str, summary: Option<&str>) -> DocumentKnowledgeRow {
    DocumentKnowledgeRow {
        id: "d".to_string(),
        title: title.to_string(),
        file_path: "/tmp/x.txt".to_string(),
        file_type: "txt".to_string(),
        word_count: 1,
        summary_json: summary.map(|s| s.to_string()),
        full_text: None,
        import_status: "ready".to_string(),
        error_message: None,
        created_at: "".to_string(),
        updated_at: "".to_string(),
    }
}

#[test]
fn truncate_marks_the_cut() {
    assert_eq!(truncate("你好世界", 2), "你好...");
    assert_eq!(truncate("你好", 2), "你好");
}

#[test]
fn achievement_names_and_descriptions() {
    assert_eq!(get_achievement_name("first_chat"), "初次对话");
    assert_eq!(get_achievement_name("dream_first"), "初梦");
    assert_eq!(get_achievement_name("nope"), "未知成就");
    assert_eq!(get_achievement_desc("chat_100"), "累计200条对话");
    assert_eq!(get_achievement_desc("nope"), "");
}

#[test]
fn achievements_earned_in_order() {
    assert_eq!(
        achievement_checks(25, 0, 1, true, false),
        vec!["first_chat".to_string(), "chat_10".to_string(), "love_50".to_string()]
    );
    assert_eq!(
        achievement_checks(200, 1, 2, true, true),
        vec!["first_chat", "chat_10", "chat_100", "love_50", "love_80", "transfer_1", "dream_first"]
    );
    assert!(achievement_checks(1, 0, 0, false, false).is_empty());
}

#[test]
fn conversation_keeps_only_dialogue() {
    let history = vec![row("user", "你好"), row("system", "灵魂已注入"), row("assistant", "嗨")];
    let msgs = conversation_messages(&history, "今天怎么样");
    let pairs: Vec<(String, String)> = msgs.iter().map(|m| (m.role.clone(), m.content.clone())).collect();
    assert_eq!(
        pairs,
        vec![
            ("user".to_string(), "你好".to_string()),
            ("assistant".to_string(), "嗨".to_string()),
            ("user".to_string(), "今天怎么样".to_string()),
        ]
    );
}

#[test]
fn image_request_is_cut_out_of_the_reply() {
    let (shown, prompt) = split_image_request("看这个！[GENERATE_IMAGE: 一只 猫 ] 好看吗");
    assert_eq!(shown, "看这个！ 好看吗");
    assert_eq!(prompt.as_deref(), Some("一只 猫"));
}

#[test]
fn reply_without_closed_tag_is_kept() {
    let (shown, prompt) = split_image_request("  [GENERATE_IMAGE: 没有结尾");
    assert_eq!(shown, "  [GENERATE_IMAGE: 没有结尾");
    assert!(prompt.is_none());
    let (shown2, prompt2) = split_image_request("普通回复");
    assert_eq!(shown2, "普通回复");
    assert!(prompt2.is_none());
}

#[test]
fn reply_summary_is_cut_by_bytes() {
    let short: String = std::iter::repeat('好').take(66).collect();
    assert_eq!(reply_memory_summary(&short), short);
    let long: String = std::iter::repeat('好').take(67).collect();
    assert_eq!(reply_memory_summary(&long), format!("{long}…"));
    let very_long: String = std::iter::repeat('a').take(250).collect();
    let expected: String = std::iter::repeat('a').take(200).collect::<String>() + "…";
    assert_eq!(reply_memory_summary(&very_long), expected);
}

#[test]
fn event_and_chunk_descriptions() {
    assert_eq!(exchange_description("你好", "嗨"), "对话: 你好 -> 嗨");
    assert_eq!(chunk_summary("小花", "你好", "嗨"), "小花: 你好 → 嗨");
    let long: String = std::iter::repeat('x').take(60).collect();
    let d = exchange_description(&long, "ok");
    assert_eq!(d, format!("对话: {}... -> ok", &long[..50]));
}

#[test]
fn chat_event_type_choice() {
    assert_eq!(choose_chat_event_type(true, None), "NormalChat");
    assert_eq!(choose_chat_event_type(true, Some("UserPraisedPet")), "FirstConversation");
    assert_eq!(choose_chat_event_type(false, Some("UserPraisedPet")), "UserPraisedPet");
}

#[test]
fn experience_mention_ignores_case() {
    assert!(mentions_experience("I used RUST today", "rust"));
    assert!(!mentions_experience("nothing here", "rust"));
}

#[test]
fn configure_ai_checks_required_fields() {
    let s = |x: &str| x.to_string();
    assert_eq!(configure_ai(s(" "), s("k"), s("m"), None, None, None, None).unwrap_err(), "Endpoint 不能为空");
    assert_eq!(configure_ai(s("e"), s(""), s("m"), None, None, None, None).unwrap_err(), "API Key 不能为空");
    assert_eq!(configure_ai(s("e"), s("k"), s("\t"), None, None, None, None).unwrap_err(), "Model 不能为空");
    let c = configure_ai(s("e"), s("k"), s("m"), Some(s("v")), None, Some(s("  ")), Some(s("ik"))).unwrap();
    assert_eq!(c.endpoint, "e");
    assert_eq!(c.vision_model.as_deref(), Some("v"));
    assert_eq!(c.image_gen_endpoint, None);
    assert_eq!(c.image_gen_api_key.as_deref(), Some("ik"));
    assert!(c.is_default);
    assert!(c.stt_endpoint.is_none());
}

#[test]
fn prompt_context_is_appended() {
    assert_eq!(append_prompt_context("P".to_string(), Some("W".to_string()), "D"), "P\n\nW\n\nD");
    assert_eq!(append_prompt_context("P".to_string(), None, ""), "P");
}

#[test]
fn document_context_describes_works() {
    let summary = r#"{"one_liner":"一个关于猫的故事","characters":[{"name":"小白","role":"主角"},{"name":"阿黄"}],"themes":["友情",3,"成长"]}"#;
    let docs = vec![doc("猫", Some(summary)), doc("空", None), doc("坏", Some("not json"))];
    let ctx = build_document_context(&docs);
    assert_eq!(
        ctx,
        "## 你了解的作品\n主人有一部作品《猫》：\n- 概要：一个关于猫的故事\n- 主要角色：小白（主角）、阿黄\n- 核心主题：友情、成长\n\n（注意：如果主人没有主动提起作品相关内容，不要突兀地评价这些作品。当主人聊到时，可以自然地结合你对作品的了解来回应。）"
    );
    assert_eq!(build_document_context(&vec![doc("空", None)]), "");
}

#[test]
fn diary_prompt_lists_fragments() {
    let frags = diary_fragments(
        &vec!["吃了饭".to_string()],
        &vec![("UserPraisedPet".to_string(), Some("被夸了".to_string())), ("NormalChat".to_string(), None)],
    );
    assert_eq!(frags, vec!["吃了饭".to_string(), "[情感事件: UserPraisedPet] 被夸了".to_string()]);
    let p = diary_prompt("小花", "愉快", &frags);
    assert!(p.starts_with("你是小花，一个桌宠精灵。"));
    assert!(p.contains("今天你的整体心情：愉快。\n"));
    assert!(p.ends_with("今天的记忆：\n1. 吃了饭\n2. [情感事件: UserPraisedPet] 被夸了"));
    let empty = diary_prompt("小花", "平静", &vec![]);
    assert!(empty.ends_with("（今天还没有任何记忆）"));
}
