//! When the pet speaks up on its own: late at night, on a low battery, or
//! when the owner copies something worth a remark.
use vstd::prelude::*;
use vstd::utf8::encode_utf8;
use crate::ai_service::starts_with;
use crate::clock::{elapsed_seconds, seconds_between, div_toward_zero, now_unix_millis};
use crate::text::{chars_of, decimal, decimal_chars, slice_chars, string_of, trim, trim_chars};

verus! {

/// Which sources may make the pet speak up; the clipboard is off by default
/// to protect privacy.
#[derive(Clone, Copy, Debug)]
pub struct InitiativeConfig {
    pub night_greeting: bool,
    pub clipboard_sense: bool,
    pub battery_alert: bool,
}

impl Default for InitiativeConfig {
    /// Night greetings and battery alerts on, clipboard sensing off.
    fn default() -> (c: Self)
        ensures
            c.night_greeting,
            !c.clipboard_sense,
            c.battery_alert,
    {
        InitiativeConfig { night_greeting: true, clipboard_sense: false, battery_alert: true }
    }
}

/// The cool-down clocks of each source: the day (counted from the epoch, in
/// local time) of the last night greeting and the instants (milliseconds
/// since the epoch) of the last alerts and checks.
#[derive(Clone, Debug)]
pub struct InitiativeState {
    pub last_night_greeting_date: Option<i64>,
    pub last_battery_alert: i64,
    pub last_clipboard_check: i64,
    pub last_clipboard_alert: i64,
    pub last_clipboard_text: Option<String>,
}

impl InitiativeState {
    /// A state whose clocks all read `now` and that has greeted no night.
    pub fn starting_at(now: i64) -> (s: Self)
        ensures
            s.last_night_greeting_date is None,
            s.last_battery_alert == now,
            s.last_clipboard_check == now,
            s.last_clipboard_alert == now,
            s.last_clipboard_text is None,
    {
        InitiativeState {
            last_night_greeting_date: None,
            last_battery_alert: now,
            last_clipboard_check: now,
            last_clipboard_alert: now,
            last_clipboard_text: None,
        }
    }
}

impl Default for InitiativeState {
    /// A state whose clocks all read the current time.
    fn default() -> (s: Self)
        ensures
            s.last_night_greeting_date is None,
            s.last_clipboard_text is None,
            s.last_battery_alert == s.last_clipboard_check,
            s.last_clipboard_check == s.last_clipboard_alert,
    {
        InitiativeState::starting_at(now_unix_millis())
    }
}

/// Why the pet speaks up.
#[derive(Clone, Debug)]
pub enum InitiativeTrigger {
    NightGreeting,
    BatteryAlert { percent: u8 },
    ClipboardSense { text: String },
}

/// The scene handed to the model for each trigger; copied text is cut to
/// its first 40 characters, with an ellipsis when it is longer than 40
/// bytes.
pub open spec fn scene_text(t: InitiativeTrigger) -> Seq<char> {
    match t {
        InitiativeTrigger::NightGreeting => "现在是深夜，主人还没睡，还守在电脑前"@,
        InitiativeTrigger::BatteryAlert { percent } => "主人的笔记本电脑电量只剩 "@ + decimal(
            percent as nat,
        ) + "%，还没插电源"@,
        InitiativeTrigger::ClipboardSense { text } => {
            let cut = text@.take(if text@.len() < 40 {
                text@.len() as int
            } else {
                40
            });
            if (encode_utf8(text@).len() as usize) > 40 {
                "主人刚才复制了一段内容："@ + cut + "…"@
            } else {
                "主人刚才复制了："@ + cut
            }
        },
    }
}

impl InitiativeTrigger {
    /// The scene handed to the model.
    pub fn scene_description(&self) -> (s: String)
        ensures
            s@ == scene_text(*self),
    {
        match self {
            InitiativeTrigger::NightGreeting => "现在是深夜，主人还没睡，还守在电脑前".to_owned(),
            InitiativeTrigger::BatteryAlert { percent } => {
                let mut s = "主人的笔记本电脑电量只剩 ".to_owned();
                let digits = decimal_chars(*percent as u64);
                s.append(string_of(&digits).as_str());
                s.append("%，还没插电源");
                s
            },
            InitiativeTrigger::ClipboardSense { text } => {
                let cs = chars_of(text.as_str());
                let n = if cs.len() < 40 {
                    cs.len()
                } else {
                    40
                };
                let cut = slice_chars(&cs, 0, n);
                assert(cut@ =~= text@.take(n as int));
                if text.as_str().len() > 40 {
                    let mut s = "主人刚才复制了一段内容：".to_owned();
                    s.append(string_of(&cut).as_str());
                    s.append("…");
                    s
                } else {
                    let mut s = "主人刚才复制了：".to_owned();
                    s.append(string_of(&cut).as_str());
                    s
                }
            },
        }
    }
}

/// What the pet says about a trigger when the model could not be asked;
/// `fond` says whether the pet is fond of its owner (love above 20).
pub open spec fn fallback_words(t: InitiativeTrigger, fond: bool) -> Seq<char> {
    match t {
        InitiativeTrigger::NightGreeting => if fond {
            "这么晚还没睡呀？我陪你一会儿~"@
        } else {
            "夜深了，还不睡吗？"@
        },
        InitiativeTrigger::BatteryAlert { percent } => "诶，电量只剩 "@ + decimal(percent as nat)
            + "% 了，记得充电哦"@,
        InitiativeTrigger::ClipboardSense { .. } => "你刚复制的东西看起来挺有意思的"@,
    }
}

impl InitiativeTrigger {
    /// What the pet says when the model could not be asked.
    pub fn fallback_text(&self, fond: bool) -> (s: String)
        ensures
            s@ == fallback_words(*self, fond),
    {
        match self {
            InitiativeTrigger::NightGreeting => if fond {
                "这么晚还没睡呀？我陪你一会儿~".to_owned()
            } else {
                "夜深了，还不睡吗？".to_owned()
            },
            InitiativeTrigger::BatteryAlert { percent } => {
                let mut s = "诶，电量只剩 ".to_owned();
                let digits = decimal_chars(*percent as u64);
                s.append(string_of(&digits).as_str());
                s.append("% 了，记得充电哦");
                s
            },
            InitiativeTrigger::ClipboardSense { .. } => "你刚复制的东西看起来挺有意思的".to_owned(),
        }
    }
}

/// Copied text is worth a remark when, trimmed, it is a web address or
/// at least 40 characters long.
pub open spec fn interesting(text: Seq<char>) -> bool {
    let t = trim(text);
    t.len() > 0 && (starts_with(t, "http://"@) || starts_with(t, "https://"@) || t.len() >= 40)
}

/// Decides what makes the pet speak up.
pub struct InitiativeService;

/// Late night: from 22:00 to 01:59.
pub open spec fn late_night(hour: u32) -> bool {
    hour >= 22 || hour < 2
}

/// A night greeting is due: enabled, late at night, and not yet given today.
pub open spec fn night_due(s: InitiativeState, c: InitiativeConfig, today: i64, hour: u32) -> bool {
    c.night_greeting && late_night(hour) && s.last_night_greeting_date != Some(today)
}

/// A battery alert is due: enabled, 30 minutes since the last one, and the
/// laptop on battery at 20% or less.
pub open spec fn battery_due(s: InitiativeState, c: InitiativeConfig, now: i64, battery: Option<(
    u8,
    bool,
)>) -> bool {
    c.battery_alert && div_toward_zero(seconds_between(s.last_battery_alert, now), 60) >= 30
        && match battery {
        Some((p, on_ac)) => !on_ac && p <= 20,
        None => false,
    }
}

/// The clipboard may be looked at: enabled, a minute since the last look,
/// ten minutes since the last clipboard remark.
pub open spec fn clipboard_window(s: InitiativeState, c: InitiativeConfig, now: i64) -> bool {
    c.clipboard_sense && seconds_between(s.last_clipboard_check, now) >= 60 && div_toward_zero(
        seconds_between(s.last_clipboard_alert, now),
        60,
    ) >= 10
}

/// Copied text earns a remark: it differs from the text seen last and is
/// worth one.
pub open spec fn clipboard_remark(s: InitiativeState, text: Seq<char>) -> bool {
    (match s.last_clipboard_text {
        Some(prev) => prev@ != text,
        None => true,
    }) && interesting(text)
}

/// A night is greeted once: when the last greeting was today, no greeting
/// is due today.
pub proof fn law_one_night_greeting_a_day(s: InitiativeState, c: InitiativeConfig, today: i64, hour: u32)
    requires
        s.last_night_greeting_date == Some(today),
    ensures
        !night_due(s, c, today, hour),
{
}

/// Battery alerts are at least 30 minutes apart.
pub proof fn law_battery_alerts_spaced(s: InitiativeState, c: InitiativeConfig, now: i64, battery: Option<(u8, bool)>)
    requires
        div_toward_zero(seconds_between(s.last_battery_alert, now), 60) < 30,
    ensures
        !battery_due(s, c, now, battery),
{
}

/// The same copied text is not remarked on twice in a row.
pub proof fn law_no_repeated_clipboard_remark(s: InitiativeState, text: Seq<char>)
    requires
        s.last_clipboard_text matches Some(t) && t@ == text,
    ensures
        !clipboard_remark(s, text),
{
}

fn minutes_since(from: i64, to: i64) -> (m: i128)
    ensures
        m == div_toward_zero(seconds_between(from, to), 60),
{
    let secs = elapsed_seconds(from, to);
    if secs >= 0 {
        secs / 60
    } else {
        -((-secs) / 60)
    }
}

impl InitiativeService {
    /// Whether copied text is worth a remark.
    pub fn is_interesting_text(text: &str) -> (b: bool)
        ensures
            b == interesting(text@),
    {
        let cs = chars_of(text);
        let t = trim_chars(&cs);
        if t.len() == 0 {
            return false;
        }
        let http = chars_of("http://");
        let https = chars_of("https://");
        crate::text::occurs_at_exec(&t, &http, 0) || crate::text::occurs_at_exec(&t, &https, 0)
            || t.len() >= 40
    }

    /// Whether the pet should speak up now, at most one reason at a time,
    /// night first, then battery, then clipboard. `today` is the local day
    /// and `hour` the local hour; `battery` is the charge in percent and
    /// whether mains power is connected, when known; `clipboard` is the
    /// copied text, when there is any.
    ///
    /// A night greeting comes once per late night. A battery alert comes
    /// when the laptop runs on battery at 20% or less, at most every 30
    /// minutes. The clipboard is looked at at most once a minute and at
    /// least 10 minutes after the last clipboard remark; a remark comes when
    /// the copied text changed and is worth one.
    pub fn check_triggers(
        state: &mut InitiativeState,
        config: &InitiativeConfig,
        now: i64,
        today: i64,
        hour: u32,
        battery: Option<(u8, bool)>,
        clipboard: Option<String>,
    ) -> (r: Option<InitiativeTrigger>)
        ensures
            night_due(*old(state), *config, today, hour) ==> r == Some(InitiativeTrigger::NightGreeting)
                && *final(state) == (InitiativeState {
                last_night_greeting_date: Some(today),
                ..*old(state)
            }),
            !night_due(*old(state), *config, today, hour) && battery_due(
                *old(state),
                *config,
                now,
                battery,
            ) ==> r == Some(InitiativeTrigger::BatteryAlert { percent: battery.unwrap().0 })
                && *final(state) == (InitiativeState { last_battery_alert: now, ..*old(state) }),
            !night_due(*old(state), *config, today, hour) && !battery_due(
                *old(state),
                *config,
                now,
                battery,
            ) && clipboard_window(*old(state), *config, now) ==> final(state).last_night_greeting_date
                == old(state).last_night_greeting_date && final(state).last_battery_alert == old(
                state,
            ).last_battery_alert && final(state).last_clipboard_check == now && match clipboard {
                None => r is None && final(state).last_clipboard_alert == old(
                    state,
                ).last_clipboard_alert && final(state).last_clipboard_text == old(
                    state,
                ).last_clipboard_text,
                Some(c) => (match final(state).last_clipboard_text {
                    Some(t) => t@ == c@,
                    None => false,
                }) && if clipboard_remark(*old(state), c@) {
                    (match r {
                        Some(InitiativeTrigger::ClipboardSense { text }) => text@ == c@,
                        _ => false,
                    }) && final(state).last_clipboard_alert == now
                } else {
                    r is None && final(state).last_clipboard_alert == old(
                        state,
                    ).last_clipboard_alert
                },
            },
            !night_due(*old(state), *config, today, hour) && !battery_due(
                *old(state),
                *config,
                now,
                battery,
            ) && !clipboard_window(*old(state), *config, now) ==> r is None && *final(state)
                == *old(state),
    {
        if config.night_greeting {
            let is_late_night = hour >= 22 || hour < 2;
            let already_greeted = match state.last_night_greeting_date {
                Some(d) => d == today,
                None => false,
            };
            if is_late_night && !already_greeted {
                state.last_night_greeting_date = Some(today);
                return Some(InitiativeTrigger::NightGreeting);
            }
        }
        if config.battery_alert {
            let cooldown_ok = minutes_since(state.last_battery_alert, now) >= 30;
            if cooldown_ok {
                if let Some((percent, on_ac)) = battery {
                    if !on_ac && percent <= 20 {
                        state.last_battery_alert = now;
                        return Some(InitiativeTrigger::BatteryAlert { percent });
                    }
                }
            }
        }
        if config.clipboard_sense {
            let check_ok = elapsed_seconds(state.last_clipboard_check, now) >= 60;
            let alert_ok = minutes_since(state.last_clipboard_alert, now) >= 10;
            if check_ok && alert_ok {
                state.last_clipboard_check = now;
                if let Some(text) = clipboard {
                    let changed = match &state.last_clipboard_text {
                        Some(prev) => !crate::text::str_equals(prev.as_str(), text.as_str()),
                        None => true,
                    };
                    let interesting = Self::is_interesting_text(text.as_str());
                    state.last_clipboard_text = Some(text.clone());
                    if changed && interesting {
                        state.last_clipboard_alert = now;
                        return Some(InitiativeTrigger::ClipboardSense { text });
                    }
                }
            }
        }
        None
    }
}

} // verus!
