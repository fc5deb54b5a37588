use deskpet::memory_compressor::{blur_level, blur_prompt, experience_prompt, experience_source_ids, parse_blur_response, blurred_summaries};
use deskpet::memory_service::{
    gather_memories, get_memories_for_context, select_context_lines, should_compress,
    sort_by_priority, ContextMemory, StoredMemory,
};
use deskpet::token_budget::MemoryPriority;

fn mem(id: &str, summary: &str, key: u64, is_core: bool, important: bool, accessible: bool) -> StoredMemory {
    StoredMemory {
        id: id.to_string(),
        summary: summary.to_string(),
        importance_key: key,
        is_core,
        important,
        accessible,
    }
}

#[test]
fn test_parse_blur_response_mapping() {
    let summaries = vec![
        ("id1".to_string(), "原始记忆1".to_string()),
        ("id2".to_string(), "原始记忆2".to_string()),
    ];
    let raw = r#"[{"index":1,"blurred":"好像发生过什么"},{"index":2,"blurred":"记不清了"},{"index":99,"blurred":"越界应丢弃"}]"#;
    let results = parse_blur_response(raw, &summaries);
    assert_eq!(results.len(), 2);
    assert_eq!(results[0].0, "id1");
    assert_eq!(results[0].1, "好像发生过什么");
    assert_eq!(results[1].0, "id2");
}

#[test]
fn blur_response_in_prose_and_garbage() {
    let summaries = vec![("a".to_string(), "x".to_string())];
    let raw = "结果如下：[{\"index\":1,\"blurred\":\"模糊\"},{\"index\":0,\"blurred\":\"零\"},{\"blurred\":\"无序号\"},{\"index\":1}]谢谢";
    assert_eq!(parse_blur_response(raw, &summaries), vec![("a".to_string(), "模糊".to_string())]);
    assert!(parse_blur_response("不是JSON", &summaries).is_empty());
}

#[test]
fn blur_levels_and_prompt() {
    assert_eq!(blur_level(1), "轻微模糊——将某些具体细节改为不太确定");
    assert_eq!(blur_level(7), "严重模糊——事实已经模糊不清，只剩下模糊的感觉和情绪基调");
    let p = blur_prompt(2, &vec![("i".to_string(), "去了公园".to_string())]);
    assert!(p.starts_with("你需要模拟一个生命体经历第2次灵魂传送后"));
    assert!(p.contains("记忆列表：\n1. 去了公园\n\n严格按JSON数组回复"));
}

#[test]
fn experience_prompt_embeds_the_memory() {
    let p = experience_prompt("学会了做饭");
    assert!(p.starts_with("以下是一段记忆：\n学会了做饭\n\n是否包含可迁移知识或技能？"));
}

#[test]
fn experiences_link_to_new_long_term_memories() {
    let ids = vec!["l1".to_string()];
    assert_eq!(experience_source_ids(&ids, 2), vec![Some("l1".to_string()), None]);
    assert!(experience_source_ids(&ids, 0).is_empty());
}

#[test]
fn compress_threshold_is_twenty() {
    assert!(!should_compress(19));
    assert!(should_compress(20));
}

#[test]
fn gathering_skips_repeats_but_keeps_all_core() {
    let core = vec![mem("c1", "核心", 9, true, true, true), mem("c1", "核心副本", 9, true, true, true)];
    let recent = vec![mem("s1", "最近", 5, false, false, true), mem("c1", "重复", 1, false, false, true)];
    let ltm = vec![mem("l1", "长期", 7, false, true, true), mem("s1", "重复", 1, false, false, true)];
    let stm = vec![mem("s2", "短期低", 2, false, false, false), mem("s3", "短期高", 3, false, false, true)];
    let g = gather_memories(&core, &recent, &ltm, &stm);
    let got: Vec<(String, MemoryPriority)> = g.memories.iter().map(|m| (m.summary.clone(), m.priority)).collect();
    assert_eq!(
        got,
        vec![
            ("核心".to_string(), MemoryPriority::CoreLongTerm),
            ("核心副本".to_string(), MemoryPriority::CoreLongTerm),
            ("最近".to_string(), MemoryPriority::RecentConversation),
            ("长期".to_string(), MemoryPriority::HighImportanceLongTerm),
            ("短期低".to_string(), MemoryPriority::ShortTermLowAccessibility),
            ("短期高".to_string(), MemoryPriority::ShortTermHighAccessibility),
        ]
    );
    assert_eq!(g.short_term_ids, vec!["s1", "s2", "s3"]);
    assert_eq!(g.long_term_ids, vec!["c1", "c1", "l1"]);
}

fn cm(summary: &str, priority: MemoryPriority, key: u64) -> ContextMemory {
    ContextMemory { summary: summary.to_string(), priority, importance_key: key }
}

#[test]
fn sorting_by_priority_then_importance_is_stable() {
    let v = vec![
        cm("a", MemoryPriority::ShortTermHighAccessibility, 5),
        cm("b", MemoryPriority::CoreLongTerm, 1),
        cm("c", MemoryPriority::ShortTermHighAccessibility, 9),
        cm("d", MemoryPriority::ShortTermHighAccessibility, 5),
        cm("e", MemoryPriority::RecentConversation, 0),
    ];
    let sorted: Vec<String> = sort_by_priority(v).into_iter().map(|m| m.summary).collect();
    assert_eq!(sorted, vec!["b", "e", "c", "a", "d"]);
}

#[test]
fn selection_respects_the_budget_and_labels() {
    let v = vec![
        cm("核心", MemoryPriority::CoreLongTerm, 1),
        cm("最近", MemoryPriority::RecentConversation, 1),
        cm("记忆", MemoryPriority::HighImportanceLongTerm, 1),
    ];
    assert_eq!(select_context_lines(&v, 2), vec!["[核心记忆] 核心", "[最近] 最近"]);
    assert!(select_context_lines(&v, 0).is_empty());
}

#[test]
fn context_memories_end_to_end() {
    let core = vec![mem("c1", "第一次见面", 9, true, true, true)];
    let recent = vec![mem("s1", "刚才聊了天气", 5, false, false, true)];
    let sel = get_memories_for_context(&core, &recent, &vec![], &vec![], 10);
    assert_eq!(sel.lines, vec!["[核心记忆] 第一次见面", "[最近] 刚才聊了天气"]);
    assert_eq!(sel.short_term_ids, vec!["s1"]);
    assert_eq!(sel.long_term_ids, vec!["c1"]);
}

#[test]
fn blurred_summaries_from_read_entries() {
    let summaries = vec![("m1".to_string(), "a".to_string()), ("m2".to_string(), "b".to_string())];
    let items = vec![(Some(2u64), Some("模糊的b".to_string())), (Some(3), Some("x".to_string())), (None, Some("y".to_string())), (Some(1), None)];
    assert_eq!(blurred_summaries(&items, &summaries), vec![("m2".to_string(), "模糊的b".to_string())]);
}
