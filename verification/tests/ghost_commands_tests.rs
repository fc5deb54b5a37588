use deskpet::ghost::{ghost_name_or_default, ghost_version, BodyConfig};
use deskpet::ghost_commands::{
    check_duplicate_signature, checked_name, dream_fragments_exec, dream_memory_snippet,
    dream_prompt, generated_persona, persona_setting, research_prompt,
};

#[test]
fn names_are_trimmed_and_required() {
    assert_eq!(checked_name("  小花 ").unwrap(), "小花");
    assert_eq!(checked_name("   ").unwrap_err(), "名字不能为空");
}

#[test]
fn persona_is_cleared_when_blank() {
    assert_eq!(persona_setting(" 爱吃鱼的猫 "), Some("爱吃鱼的猫".to_string()));
    assert_eq!(persona_setting(" \n"), None);
    assert_eq!(generated_persona("\n一只猫\n").unwrap(), "一只猫");
    assert_eq!(generated_persona("  ").unwrap_err(), "AI 生成了空的人设，请重试");
}

#[test]
fn duplicate_signature_check() {
    let dup = check_duplicate_signature(Some("sig"), "sig");
    assert!(dup.is_duplicate);
    assert_eq!(dup.current_signature, "sig");
    assert!(dup.message.starts_with("检测到相同灵魂签名的Ghost正在运行。"));
    let other = check_duplicate_signature(Some("sig"), "x");
    assert!(!other.is_duplicate);
    assert_eq!(other.message, "");
    let none = check_duplicate_signature(None, "x");
    assert!(!none.is_duplicate);
    assert_eq!(none.current_signature, "");
}

#[test]
fn dream_fragments_skip_repeated_memories() {
    let stm = vec!["today we talked about cats and dogs".to_string()];
    let ltm = vec![
        ("today we talked about cats".to_string(), true),
        ("a quiet evening".to_string(), true),
        ("not important".to_string(), false),
    ];
    let frags = dream_fragments_exec(&stm, &ltm);
    assert_eq!(
        frags,
        vec!["today we talked about cats and dogs".to_string(), "a quiet evening".to_string()]
    );
}

#[test]
fn dream_prompt_and_snippet() {
    let frags = vec!["去了海边".to_string()];
    let p = dream_prompt("小花", None, &frags);
    assert!(p.starts_with("你是小花，一个桌宠精灵。你现在睡着了，正在做一个梦。\\n"));
    assert!(p.ends_with("近期记忆碎片：\\n1. 去了海边"));
    let first = dream_prompt("小花", Some("一只猫"), &vec![]);
    assert!(first.starts_with("你是小花，一只猫。"));
    assert!(first.ends_with("（暂无记忆，这是你第一次做梦）"));
    assert_eq!(dream_memory_snippet(&frags), Some("去了海边".to_string()));
    assert_eq!(dream_memory_snippet(&vec![]), None);
    let long: String = std::iter::repeat('梦').take(150).collect();
    assert_eq!(dream_memory_snippet(&vec![long]).unwrap().chars().count(), 100);
}

#[test]
fn research_prompts_name_the_topic() {
    let (system, question) = research_prompt("星空");
    assert!(system.contains("你对「星空」特别感兴趣。"));
    assert_eq!(question, "我想了解一下「星空」方面有什么有趣的。");
}

#[test]
fn body_and_ghost_defaults() {
    let b = BodyConfig::default();
    assert_eq!(b.body_type, "spritesheet");
    assert_eq!(b.movement_style, "walk");
    let f = BodyConfig::with_movement_style("float".to_string());
    assert_eq!(f.movement_style, "float");
    assert_eq!(f.asset_path, "./bodies/default/");
    assert_eq!(ghost_name_or_default(None), "未命名");
    assert_eq!(ghost_name_or_default(Some("阿花".to_string())), "阿花");
    assert_eq!(ghost_version(), "2.0");
}
