use deskpet::chat_history::{days_to_ymd, format_ms_iso8601, plan_chat_order_repair, ChatMessageRow};
use deskpet::context_window::{estimate_tokens, ContextWindow};
use deskpet::emotion::{
    parse_event_type, parse_event_type_strict, update_snippet, CuriosityLevel, EmotionalEventManager,
    EmotionalEventType,
};
use deskpet::json_text::{extract_json, extract_json_array, extract_json_from_response};
use deskpet::prompt_builder::{AnsweringMode, PromptBuilder};
use deskpet::timeline::{TimelineService, TimelineState};

fn row(id: &str, role: &str, ts: &str) -> ChatMessageRow {
    ChatMessageRow {
        id: id.to_string(),
        ghost_id: "g1".to_string(),
        role: role.to_string(),
        content: "c".to_string(),
        created_at: ts.to_string(),
    }
}

#[test]
fn test_repair_chat_history_order() {
    let rows = vec![
        row("a1", "assistant", "2026-08-03 09:00:00"),
        row("a2", "assistant", "2026-08-03 09:00:00"),
        row("u1", "user", "2026-08-03 09:00:00"),
    ];
    let updates = plan_chat_order_repair(&rows);
    assert_eq!(updates.len(), 3);
    assert_eq!(updates[0], ("u1".to_string(), "2026-08-03 09:00:00.000".to_string()));
    assert_eq!(updates[1], ("a1".to_string(), "2026-08-03 09:00:00.001".to_string()));
    assert_eq!(updates[2], ("a2".to_string(), "2026-08-03 09:00:00.002".to_string()));
    assert!(updates.iter().all(|(_, ts)| ts.contains('.')));
}

#[test]
fn repaired_stamps_are_padded_so_they_sort() {
    let rows: Vec<ChatMessageRow> = (0..12).map(|k| row(&format!("m{}", k), "user", "2026-08-03 09:00:00")).collect();
    let updates = plan_chat_order_repair(&rows);
    assert_eq!(updates.len(), 12);
    assert_eq!(updates[2].1, "2026-08-03 09:00:00.002");
    assert_eq!(updates[10].1, "2026-08-03 09:00:00.010");
    assert_eq!(updates[11].1, "2026-08-03 09:00:00.011");
    let stamps: Vec<&String> = updates.iter().map(|(_, ts)| ts).collect();
    let mut sorted = stamps.clone();
    sorted.sort();
    assert_eq!(stamps, sorted);
}

#[test]
fn timestamp_texts_sort_as_their_instants() {
    let instants: [i64; 8] = [0, 999, 1_000, 59_999, 86_399_999, 86_400_000, 1_700_000_000_123, 253_402_300_799_999];
    for w in instants.windows(2) {
        let (a, b) = (format_ms_iso8601(w[0]), format_ms_iso8601(w[1]));
        assert_eq!(a.len(), 23);
        assert_eq!(b.len(), 23);
        assert!(a < b, "{a} vs {b}");
    }
    assert_eq!(format_ms_iso8601(253_402_300_799_999), "9999-12-31 23:59:59.999");
}

#[test]
fn repair_leaves_precise_rows_alone() {
    let rows = vec![row("x", "assistant", "2026-08-03 09:00:00.123"), row("y", "user", "2026-08-03 09:00:01")];
    let updates = plan_chat_order_repair(&rows);
    assert!(updates.is_empty());
}

#[test]
fn millisecond_timestamps() {
    assert_eq!(format_ms_iso8601(0), "1970-01-01 00:00:00.000");
    assert_eq!(format_ms_iso8601(1_700_000_000_123), "2023-11-14 22:13:20.123");
    assert_eq!(days_to_ymd(19723), (2024, 1, 1));
    assert_eq!(days_to_ymd(-1), (1969, 12, 31));
    assert_eq!(days_to_ymd(19782), (2024, 2, 29));
    assert_eq!(days_to_ymd(19783), (2024, 3, 1));
    assert_eq!(days_to_ymd(10956), (1999, 12, 31));
    assert_eq!(days_to_ymd(11016), (2000, 2, 29));
}

#[test]
fn token_estimates() {
    assert_eq!(estimate_tokens("hello world"), 4);
    assert_eq!(estimate_tokens("你好"), 3);
    assert_eq!(estimate_tokens(""), 0);
}

#[test]
fn context_window_keeps_recent_messages() {
    let mut w = ContextWindow::new(5);
    w.add_message("user", "你好");
    w.add_message("assistant", "hello world");
    assert_eq!(w.token_count(), 7);
    assert!(w.should_compress());
    assert_eq!(w.get_recent(1)[0].content, "hello world");
    let removed = w.clear_old_messages(1);
    assert_eq!(removed.len(), 1);
    assert_eq!(removed[0].content, "你好");
    assert_eq!(w.get_messages().len(), 1);
    assert_eq!(w.token_count(), 4);
    w.clear();
    assert_eq!(w.token_count(), 0);
    assert!(w.get_messages().is_empty());
}

#[test]
fn test_event_manager() {
    let mut manager = EmotionalEventManager::new();
    for _i in 0..5 {
        manager.add_event(EmotionalEventType::NormalChat);
    }
    assert_eq!(manager.events.len(), 5);
}

#[test]
fn event_log_is_bounded() {
    let mut manager = EmotionalEventManager::new();
    for i in 0..105u32 {
        manager.add_event(i);
    }
    assert_eq!(manager.events.len(), 100);
    assert_eq!(manager.events[0], 5);
    assert_eq!(manager.get_recent_events(3), &[102, 103, 104]);
}

#[test]
fn test_snippet_overflow() {
    let mut snippets: Vec<String> = Vec::new();
    for i in 0..25 {
        update_snippet(&mut snippets, &Some(format!("印象{}", i)));
    }
    assert_eq!(snippets.len(), 20);
    assert_eq!(snippets[0], "印象5");
}

#[test]
fn event_type_names() {
    assert_eq!(parse_event_type("UserPraisedPet"), EmotionalEventType::UserPraisedPet);
    assert_eq!(parse_event_type("whatever"), EmotionalEventType::NormalChat);
    assert_eq!(parse_event_type_strict("x").unwrap_err(), "Unknown event type: x");
    assert_eq!(EmotionalEventType::FirstConversation.name(), "FirstConversation");
    assert!(EmotionalEventType::FirstConversation.is_milestone());
    assert!(!EmotionalEventType::UserGotAngry.is_milestone());
    assert_eq!(CuriosityLevel::parse("Enhanced").unwrap(), CuriosityLevel::Enhanced);
    assert_eq!(
        CuriosityLevel::parse("Max").unwrap_err(),
        "Unknown curiosity level: Max. Use Off/Normal/Enhanced"
    );
}

#[test]
fn json_in_replies() {
    assert_eq!(extract_json("前言 {\"a\":1} 后记"), "{\"a\":1}");
    assert_eq!(extract_json("没有"), "没有");
    assert_eq!(extract_json_array("```json\n[1,2]\n```"), "[1,2]");
    assert_eq!(extract_json_from_response("  ```json\n{\"x\":2}\n```  "), "{\"x\":2}");
}

#[test]
fn answering_modes_and_prompt_parts() {
    assert_eq!(AnsweringMode::default(), AnsweringMode::Companion);
    assert_eq!(AnsweringMode::parse("Assistant").unwrap(), AnsweringMode::Assistant);
    assert_eq!(
        AnsweringMode::parse("Boss").unwrap_err(),
        "Unknown answering mode: Boss. Use Companion or Assistant"
    );
    assert_eq!(AnsweringMode::Assistant.name(), "Assistant");
    assert!(PromptBuilder::build_identity("小花", &AnsweringMode::Companion).starts_with("你是小花，一个生活在桌面上的小精灵。"));
    assert_eq!(PromptBuilder::build_memory_context(&vec![]), "");
    assert_eq!(
        PromptBuilder::build_memory_context(&vec!["a".to_string(), "b".to_string()]),
        "以下是你的部分记忆：\n1. a\n2. b"
    );
    assert_eq!(PromptBuilder::build_experience_instructions(&vec![]), "你目前还没有掌握什么特别的技能。");
    let c = PromptBuilder::build_behavior_constraints(&AnsweringMode::Companion, "多说点", "高");
    assert!(c.ends_with("- 多说点\n- 当前回应意愿：高"));
    assert_eq!(PromptBuilder::assemble(&vec!["x".to_string(), "y".to_string()]), "x\n\ny");
}

#[test]
fn timeline_ticks_and_inactivity() {
    let mut t: TimelineState<u32> = TimelineState::starting_at(0);
    let hour = 3_600_000i64;
    let status = TimelineService::get_inactivity_status(&t, 25 * hour);
    assert_eq!(status.hours_since_last_interaction, 25);
    assert!(status.is_inactive);
    assert!(!status.is_very_inactive);
    let plan = TimelineService::plan_tick(&mut t, 25 * hour, false);
    assert!(plan.emotional_tick);
    assert!(plan.inactivity.is_some());
    t.record_interaction(25 * hour);
    let status2 = TimelineService::get_inactivity_status(&t, 25 * hour + 60_000);
    assert_eq!(status2.minutes_since_last_interaction, 1);
    assert!(!status2.is_inactive);
}

#[test]
fn repair_is_not_needed_twice() {
    let mut rows = vec![
        row("s1", "system", "2026-08-03 09:00:00"),
        row("a1", "assistant", "2026-08-03 09:00:00"),
        row("u1", "user", "2026-08-03 09:00:00"),
        row("u2", "user", "2026-08-03 09:00:05"),
    ];
    let updates = plan_chat_order_repair(&rows);
    assert_eq!(updates.len(), 3);
    for (id, ts) in &updates {
        let r = rows.iter_mut().find(|r| &r.id == id).unwrap();
        r.created_at = ts.clone();
    }
    rows.sort_by(|a, b| (a.created_at.as_str(), a.id.as_str()).cmp(&(b.created_at.as_str(), b.id.as_str())));
    let order: Vec<&str> = rows.iter().map(|r| r.id.as_str()).collect();
    assert_eq!(order, vec!["u1", "a1", "s1", "u2"]);
    assert!(plan_chat_order_repair(&rows).is_empty());
}

#[test]
fn names_read_back_as_what_they_name() {
    for m in [AnsweringMode::Companion, AnsweringMode::Assistant] {
        assert_eq!(AnsweringMode::parse(&m.name()).unwrap(), m);
    }
    for l in [CuriosityLevel::Off, CuriosityLevel::Normal, CuriosityLevel::Enhanced] {
        assert_eq!(CuriosityLevel::parse(l.name()).unwrap(), l);
    }
    assert_eq!(
        AnsweringMode::parse("companion").unwrap_err(),
        "Unknown answering mode: companion. Use Companion or Assistant"
    );
}
