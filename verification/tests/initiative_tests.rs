use chrono::Timelike;
use deskpet::initiative::{InitiativeConfig, InitiativeService, InitiativeState, InitiativeTrigger};

#[test]
fn test_default_config_has_clipboard_off() {
    let config = InitiativeConfig::default();
    assert!(config.night_greeting);
    assert!(config.battery_alert);
    assert!(!config.clipboard_sense);
}

#[test]
fn test_interesting_text_rules() {
    assert!(InitiativeService::is_interesting_text("https://example.com/abc"));
    assert!(InitiativeService::is_interesting_text("http://localhost:3000"));
    let long = "这是一个超过四十个字的文本，用于测试剪贴板感知功能是否会正确识别长文本并触发搭话";
    assert!(InitiativeService::is_interesting_text(long));
    assert!(!InitiativeService::is_interesting_text(""));
    assert!(!InitiativeService::is_interesting_text("   "));
    assert!(!InitiativeService::is_interesting_text("短文本"));
}

fn now_ms() -> i64 {
    chrono::Utc::now().timestamp_millis()
}

#[test]
fn test_clipboard_cooldown_respected() {
    let mut state = InitiativeState::default();
    let config = InitiativeConfig {
        night_greeting: false,
        clipboard_sense: true,
        battery_alert: false,
    };
    let now = now_ms();
    state.last_clipboard_check = now;
    let hour = chrono::Local::now().hour();
    let today = 0;
    let r = InitiativeService::check_triggers(
        &mut state,
        &config,
        now,
        today,
        hour,
        None,
        Some("https://example.com/abc".to_string()),
    );
    assert!(r.is_none());
}

#[test]
fn test_trigger_priority_night_first() {
    let mut state = InitiativeState::default();
    let config = InitiativeConfig {
        night_greeting: true,
        clipboard_sense: false,
        battery_alert: false,
    };
    let hour = chrono::Local::now().hour();
    let today = chrono::Datelike::num_days_from_ce(&chrono::Local::now().date_naive()) as i64;
    let is_late = hour >= 22 || hour < 2;
    let now = now_ms();
    let first = InitiativeService::check_triggers(&mut state, &config, now, today, hour, None, None);
    assert_eq!(first.is_some(), is_late);
    let second = InitiativeService::check_triggers(&mut state, &config, now, today, hour, None, None);
    assert!(second.is_none());
}

#[test]
fn night_greeting_once_per_day_at_fixed_hour() {
    let mut state = InitiativeState::starting_at(0);
    let config = InitiativeConfig { night_greeting: true, clipboard_sense: false, battery_alert: false };
    let first = InitiativeService::check_triggers(&mut state, &config, 0, 19000, 23, None, None);
    assert!(matches!(first, Some(InitiativeTrigger::NightGreeting)));
    assert_eq!(state.last_night_greeting_date, Some(19000));
    let second = InitiativeService::check_triggers(&mut state, &config, 0, 19000, 23, None, None);
    assert!(second.is_none());
    let next_day = InitiativeService::check_triggers(&mut state, &config, 0, 19001, 1, None, None);
    assert!(matches!(next_day, Some(InitiativeTrigger::NightGreeting)));
    let daytime = InitiativeService::check_triggers(&mut state, &config, 0, 19002, 12, None, None);
    assert!(daytime.is_none());
}

#[test]
fn battery_alert_after_cooldown_only_on_battery() {
    let config = InitiativeConfig { night_greeting: false, clipboard_sense: false, battery_alert: true };
    let mut state = InitiativeState::starting_at(0);
    let thirty_min = 30 * 60 * 1000;
    assert!(InitiativeService::check_triggers(&mut state, &config, thirty_min - 1, 0, 12, Some((10, false)), None).is_none());
    assert!(InitiativeService::check_triggers(&mut state, &config, thirty_min, 0, 12, Some((10, true)), None).is_none());
    assert!(InitiativeService::check_triggers(&mut state, &config, thirty_min, 0, 12, Some((21, false)), None).is_none());
    let r = InitiativeService::check_triggers(&mut state, &config, thirty_min, 0, 12, Some((20, false)), None);
    assert!(matches!(r, Some(InitiativeTrigger::BatteryAlert { percent: 20 })));
    assert_eq!(state.last_battery_alert, thirty_min);
}

#[test]
fn clipboard_remark_for_new_interesting_text() {
    let config = InitiativeConfig { night_greeting: false, clipboard_sense: true, battery_alert: false };
    let mut state = InitiativeState::starting_at(0);
    let later = 11 * 60 * 1000;
    let r = InitiativeService::check_triggers(&mut state, &config, later, 0, 12, None, Some("https://a.b".to_string()));
    match r {
        Some(InitiativeTrigger::ClipboardSense { text }) => assert_eq!(text, "https://a.b"),
        _ => panic!("expected a clipboard remark"),
    }
    assert_eq!(state.last_clipboard_alert, later);
    let much_later = later + 11 * 60 * 1000;
    let again = InitiativeService::check_triggers(&mut state, &config, much_later, 0, 12, None, Some("https://a.b".to_string()));
    assert!(again.is_none());
    assert_eq!(state.last_clipboard_check, much_later);
}

#[test]
fn scene_descriptions() {
    assert_eq!(
        InitiativeTrigger::BatteryAlert { percent: 15 }.scene_description(),
        "主人的笔记本电脑电量只剩 15%，还没插电源"
    );
    assert_eq!(
        InitiativeTrigger::ClipboardSense { text: "abc".to_string() }.scene_description(),
        "主人刚才复制了：abc"
    );
    let long: String = std::iter::repeat('字').take(45).collect();
    let d = InitiativeTrigger::ClipboardSense { text: long }.scene_description();
    assert!(d.starts_with("主人刚才复制了一段内容："));
    assert!(d.ends_with("…"));
    assert_eq!(d.chars().count(), "主人刚才复制了一段内容：".chars().count() + 40 + 1);
}

#[test]
fn test_fallback_text_exists() {
    let t1 = InitiativeTrigger::NightGreeting;
    let t2 = InitiativeTrigger::BatteryAlert { percent: 15 };
    let t3 = InitiativeTrigger::ClipboardSense { text: "xxx".into() };
    assert!(!t1.fallback_text(true).is_empty());
    assert!(!t2.fallback_text(false).is_empty());
    assert!(!t3.fallback_text(false).is_empty());
}

#[test]
fn fallback_texts() {
    assert_eq!(InitiativeTrigger::NightGreeting.fallback_text(true), "这么晚还没睡呀？我陪你一会儿~");
    assert_eq!(InitiativeTrigger::NightGreeting.fallback_text(false), "夜深了，还不睡吗？");
    assert_eq!(
        InitiativeTrigger::BatteryAlert { percent: 15 }.fallback_text(true),
        "诶，电量只剩 15% 了，记得充电哦"
    );
}

#[test]
fn same_copied_text_is_remarked_once() {
    let config = InitiativeConfig {
        night_greeting: false,
        clipboard_sense: true,
        battery_alert: false,
    };
    let start = 1_000_000_000_000i64;
    let mut state = InitiativeState::starting_at(start);
    let url = Some("https://example.com/abc".to_string());
    let later = start + 11 * 60 * 1000;
    let first = InitiativeService::check_triggers(&mut state, &config, later, 0, 12, None, url.clone());
    assert!(matches!(first, Some(InitiativeTrigger::ClipboardSense { .. })));
    let much_later = later + 11 * 60 * 1000;
    let second = InitiativeService::check_triggers(&mut state, &config, much_later, 0, 12, None, url);
    assert!(second.is_none());
}

#[test]
fn battery_alerts_are_spaced() {
    let config = InitiativeConfig {
        night_greeting: false,
        clipboard_sense: false,
        battery_alert: true,
    };
    let start = 1_000_000_000_000i64;
    let mut state = InitiativeState::starting_at(start);
    let t1 = start + 31 * 60 * 1000;
    let first = InitiativeService::check_triggers(&mut state, &config, t1, 0, 12, Some((15, false)), None);
    assert!(matches!(first, Some(InitiativeTrigger::BatteryAlert { percent: 15 })));
    let t2 = t1 + 10 * 60 * 1000;
    assert!(InitiativeService::check_triggers(&mut state, &config, t2, 0, 12, Some((10, false)), None).is_none());
    let t3 = t1 + 30 * 60 * 1000;
    assert!(InitiativeService::check_triggers(&mut state, &config, t3, 0, 12, Some((10, false)), None).is_some());
}
