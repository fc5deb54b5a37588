use deskpet::weather::{redact_appid, WeatherConfig};

#[test]
fn test_redact_appid_masks_key() {
    let err = "error sending request for url (https://api.openweathermap.org/data/2.5/weather?q=beijing&appid=abcdef0123456789abcdef0123456789&lang=zh_cn)";
    let out = redact_appid(err);
    assert!(!out.contains("abcdef0123456789"), "{out}");
    assert!(out.contains("appid=****"), "{out}");
    assert!(out.contains("q=beijing"), "{out}");
    assert!(out.contains("error sending request"), "{out}");
}

#[test]
fn test_redact_appid_without_key_is_unchanged() {
    let s = "天气API请求失败: connection timed out";
    assert_eq!(redact_appid(s), s);
}

#[test]
fn test_redact_appid_multiple_and_trailing() {
    assert_eq!(redact_appid("appid=SECRET123"), "appid=****");
    assert_eq!(redact_appid("a=1&appid=X9&b=2"), "a=1&appid=****&b=2");
    assert_eq!(redact_appid("appid=ab%2Fcd&x=1"), "appid=****&x=1");
    assert_eq!(redact_appid("appid=A1&appid=B2"), "appid=****&appid=****");
}

#[test]
fn test_redact_appid_never_partially_masks() {
    let base64ish = "Ab+C/dEf=1234567890";
    let out = redact_appid(&format!("appid={base64ish}&lang=zh_cn"));
    assert!(!out.contains("Ab+C"), "{out}");
    assert!(!out.contains("dEf"), "{out}");
    assert!(out.contains("lang=zh_cn"), "{out}");
    let wrapped = redact_appid("for url (https://api.openweathermap.org/data/2.5/weather?q=beijing&appid=deadbeef0123456789abcdef01234567)");
    assert!(!wrapped.contains("deadbeef"), "{wrapped}");
}

#[test]
fn redaction_is_idempotent() {
    let once = redact_appid("x&appid=K1#y");
    assert_eq!(redact_appid(&once), once);
}

#[test]
fn weather_config_default_is_not_configured() {
    let c = WeatherConfig::default();
    assert!(!c.is_configured());
}

#[test]
fn every_key_left_is_masked() {
    let inputs = [
        "x appid=K1 y appid=K2&z appid=K3",
        "appidappid=zz)appid='q'",
        "appid=appid=deep&appid=",
    ];
    for s in inputs {
        let out = redact_appid(s);
        let mut from = 0;
        while let Some(pos) = out[from..].find("appid=") {
            let at = from + pos;
            let rest = &out[at + 6..];
            assert!(rest.starts_with("****"), "{out}");
            let next = rest[4..].chars().next();
            assert!(matches!(next, None | Some('&') | Some(' ') | Some(')') | Some('"') | Some('\'')), "{out}");
            from = at + 6;
        }
    }
}

#[test]
fn key_value_ends_at_any_white_space() {
    assert_eq!(redact_appid("appid=K\tx=1"), "appid=****\tx=1");
    assert_eq!(redact_appid("appid=K\nnext line"), "appid=****\nnext line");
    assert_eq!(redact_appid("appid=K\u{3000}全角"), "appid=****\u{3000}全角");
}
