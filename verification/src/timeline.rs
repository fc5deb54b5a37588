//! The pet's sense of time: when its feelings drift, when it notices being
//! left alone, when it gets curious, dreams or writes its diary.
use vstd::prelude::*;
use crate::clock::{div_toward_zero, elapsed_seconds, seconds_between};
use crate::emotion::EmotionalEventManager;
use crate::text::{decimal_chars, string_of};

verus! {

/// Hours of absence after which the pet feels neglected.
pub const INACTIVITY_WARN_HOURS: i64 = 24;

/// Hours of absence after which the pet feels ignored.
pub const INACTIVITY_IGNORE_HOURS: i64 = 72;

/// The instants (milliseconds since the epoch) of the pet's last
/// activities, and its log of emotional events.
pub struct TimelineState<E> {
    pub last_interaction: i64,
    pub last_emotional_tick: i64,
    pub last_curiosity_check: i64,
    pub last_inactivity_event: i64,
    pub last_dream_time: i64,
    pub last_diary_time: i64,
    pub event_manager: EmotionalEventManager<E>,
}

/// The feelings drift once a minute.
pub open spec fn emotional_tick_due(t_last: i64, now: i64) -> bool {
    seconds_between(t_last, now) >= 60
}

/// Neglect is checked once an hour.
pub open spec fn inactivity_check_due(t_last: i64, now: i64) -> bool {
    seconds_between(t_last, now) >= 3600
}

/// Curiosity is checked every five minutes.
pub open spec fn curiosity_check_due(t_last: i64, now: i64) -> bool {
    seconds_between(t_last, now) >= 300
}

/// A dream comes after an hour without interaction and six hours after the
/// last dream.
pub open spec fn dream_due(last_interaction: i64, last_dream: i64, now: i64) -> bool {
    seconds_between(last_interaction, now) >= 3600 && seconds_between(last_dream, now) >= 21600
}

/// A diary entry comes twelve hours after the last one.
pub open spec fn diary_due(t_last: i64, now: i64) -> bool {
    seconds_between(t_last, now) >= 43200
}

impl<E> TimelineState<E> {
    /// Every activity dated at `now`, with an empty event log.
    pub fn starting_at(now: i64) -> (s: Self)
        ensures
            s.last_interaction == now,
            s.last_emotional_tick == now,
            s.last_curiosity_check == now,
            s.last_inactivity_event == now,
            s.last_dream_time == now,
            s.last_diary_time == now,
            s.event_manager.events@ == Seq::<E>::empty(),
    {
        TimelineState {
            last_interaction: now,
            last_emotional_tick: now,
            last_curiosity_check: now,
            last_inactivity_event: now,
            last_dream_time: now,
            last_diary_time: now,
            event_manager: EmotionalEventManager::new(),
        }
    }

    /// Notes an interaction with the owner at `now`.
    pub fn record_interaction(&mut self, now: i64)
        ensures
            final(self).last_interaction == now,
            final(self).last_emotional_tick == old(self).last_emotional_tick,
            final(self).last_curiosity_check == old(self).last_curiosity_check,
            final(self).last_inactivity_event == old(self).last_inactivity_event,
            final(self).last_dream_time == old(self).last_dream_time,
            final(self).last_diary_time == old(self).last_diary_time,
            final(self).event_manager == old(self).event_manager,
    {
        self.last_interaction = now;
    }

    /// Whether a minute has passed since the feelings last drifted.
    pub fn should_emotional_tick(&self, now: i64) -> (b: bool)
        ensures
            b == emotional_tick_due(self.last_emotional_tick, now),
    {
        elapsed_seconds(self.last_emotional_tick, now) >= 60
    }

    /// Whether an hour has passed since the last neglect event.
    pub fn should_check_inactivity(&self, now: i64) -> (b: bool)
        ensures
            b == inactivity_check_due(self.last_inactivity_event, now),
    {
        elapsed_seconds(self.last_inactivity_event, now) >= 3600
    }

    /// Whether five minutes have passed since curiosity was last checked.
    pub fn should_check_curiosity(&self, now: i64) -> (b: bool)
        ensures
            b == curiosity_check_due(self.last_curiosity_check, now),
    {
        elapsed_seconds(self.last_curiosity_check, now) >= 300
    }

    /// Whether the pet should dream now.
    pub fn should_generate_dream(&self, now: i64) -> (b: bool)
        ensures
            b == dream_due(self.last_interaction, self.last_dream_time, now),
    {
        elapsed_seconds(self.last_interaction, now) >= 3600 && elapsed_seconds(
            self.last_dream_time,
            now,
        ) >= 21600
    }

    /// Whether the pet should write its diary now.
    pub fn should_generate_diary(&self, now: i64) -> (b: bool)
        ensures
            b == diary_due(self.last_diary_time, now),
    {
        elapsed_seconds(self.last_diary_time, now) >= 43200
    }
}

/// How long the owner has been away, and whether that counts as neglect.
#[derive(Clone, Copy, Debug)]
pub struct InactivityStatus {
    pub hours_since_last_interaction: i64,
    pub minutes_since_last_interaction: i64,
    pub is_inactive: bool,
    pub is_very_inactive: bool,
}

/// Whole hours from `from` to `to` (milliseconds), rounded towards zero.
pub open spec fn hours_between(from: i64, to: i64) -> int {
    div_toward_zero(seconds_between(from, to), 3600)
}

/// Whole minutes from `from` to `to` (milliseconds), rounded towards zero.
pub open spec fn minutes_between(from: i64, to: i64) -> int {
    div_toward_zero(seconds_between(from, to), 60)
}

/// What a neglect check found.
pub enum InactivityKind {
    /// Away a day or more: the pet feels neglected.
    Neglected,
    /// Away three days or more: the pet feels ignored.
    Ignored,
}

/// The neglect a check finds after `hours` of absence.
pub open spec fn inactivity_kind(hours: int) -> Option<InactivityKind> {
    if hours >= 72 {
        Some(InactivityKind::Ignored)
    } else if hours >= 24 {
        Some(InactivityKind::Neglected)
    } else {
        None
    }
}

/// A neglect event that a tick raises.
pub struct InactivityFinding {
    pub kind: InactivityKind,
    pub hours_away: i64,
    pub description: String,
}

/// The description of a neglect event.
pub open spec fn inactivity_description(kind: InactivityKind, hours: nat) -> Seq<char> {
    match kind {
        InactivityKind::Ignored => "主人已经"@ + crate::text::decimal(hours) + "小时没有和我互动了..."@,
        InactivityKind::Neglected => "主人已经"@ + crate::text::decimal(hours) + "小时没来了..."@,
    }
}

/// What a tick of the timeline decided.
pub struct TickPlan {
    /// The feelings should drift towards their baseline.
    pub emotional_tick: bool,
    /// A neglect event to raise.
    pub inactivity: Option<InactivityFinding>,
    pub curiosity_triggered: bool,
    pub dream_triggered: bool,
    pub diary_triggered: bool,
}

/// The services that keep the pet's time.
pub struct TimelineService;

impl TimelineService {
    pub fn new() -> (s: Self) {
        TimelineService
    }

    /// How long the owner has been away at `now`.
    pub fn get_inactivity_status<E>(timeline: &TimelineState<E>, now: i64) -> (s: InactivityStatus)
        requires
            -0x8000_0000_0000_0000 <= seconds_between(timeline.last_interaction, now) < 0x8000_0000_0000_0000,
        ensures
            s.hours_since_last_interaction == hours_between(timeline.last_interaction, now),
            s.minutes_since_last_interaction == minutes_between(timeline.last_interaction, now),
            s.is_inactive == (hours_between(timeline.last_interaction, now) >= 24),
            s.is_very_inactive == (hours_between(timeline.last_interaction, now) >= 72),
    {
        let secs = elapsed_seconds(timeline.last_interaction, now);
        let hours: i128 = if secs >= 0 {
            secs / 3600
        } else {
            -((-secs) / 3600)
        };
        let minutes: i128 = if secs >= 0 {
            secs / 60
        } else {
            -((-secs) / 60)
        };
        InactivityStatus {
            hours_since_last_interaction: hours as i64,
            minutes_since_last_interaction: minutes as i64,
            is_inactive: hours >= 24,
            is_very_inactive: hours >= 72,
        }
    }

    /// Decides what a tick of the timeline at `now` does and moves the
    /// timeline's clocks: the feelings drift each minute; each hour the
    /// owner's absence is checked and, after a day or more, a neglect event
    /// is raised; every five minutes curiosity is checked, and triggers when
    /// `curiosity_ready` (the pet's curiosity level and intensity call for
    /// action); a dream or a diary entry is due on its own schedule.
    pub fn plan_tick<E>(timeline: &mut TimelineState<E>, now: i64, curiosity_ready: bool) -> (p:
        TickPlan)
        requires
            seconds_between(old(timeline).last_interaction, now) < 0x8000_0000_0000_0000,
        ensures
            p.emotional_tick == emotional_tick_due(old(timeline).last_emotional_tick, now),
            final(timeline).last_emotional_tick == if p.emotional_tick {
                now
            } else {
                old(timeline).last_emotional_tick
            },
            inactivity_check_due(old(timeline).last_inactivity_event, now) ==> match p.inactivity {
                Some(f) => inactivity_kind(hours_between(old(timeline).last_interaction, now))
                    == Some(f.kind) && f.hours_away == hours_between(
                    old(timeline).last_interaction,
                    now,
                ) && f.description@ == inactivity_description(f.kind, f.hours_away as nat),
                None => inactivity_kind(hours_between(old(timeline).last_interaction, now))
                    is None,
            },
            !inactivity_check_due(old(timeline).last_inactivity_event, now) ==> p.inactivity
                is None,
            inactivity_check_due(old(timeline).last_inactivity_event, now) && hours_between(
                old(timeline).last_interaction,
                now,
            ) >= 72 ==> (p.inactivity matches Some(f) && f.kind is Ignored && f.hours_away
                == hours_between(old(timeline).last_interaction, now) && f.description@ == "主人已经"@
                + crate::text::decimal(f.hours_away as nat) + "小时没有和我互动了..."@),
            inactivity_check_due(old(timeline).last_inactivity_event, now) && 24 <= hours_between(
                old(timeline).last_interaction,
                now,
            ) < 72 ==> (p.inactivity matches Some(f) && f.kind is Neglected && f.hours_away
                == hours_between(old(timeline).last_interaction, now) && f.description@ == "主人已经"@
                + crate::text::decimal(f.hours_away as nat) + "小时没来了..."@),
            hours_between(old(timeline).last_interaction, now) < 24 ==> p.inactivity is None,
            final(timeline).last_inactivity_event == if p.inactivity is Some {
                now
            } else {
                old(timeline).last_inactivity_event
            },
            p.curiosity_triggered == (curiosity_check_due(old(timeline).last_curiosity_check, now)
                && curiosity_ready),
            final(timeline).last_curiosity_check == if curiosity_check_due(
                old(timeline).last_curiosity_check,
                now,
            ) {
                now
            } else {
                old(timeline).last_curiosity_check
            },
            p.dream_triggered == dream_due(
                old(timeline).last_interaction,
                old(timeline).last_dream_time,
                now,
            ),
            p.diary_triggered == diary_due(old(timeline).last_diary_time, now),
            final(timeline).last_interaction == old(timeline).last_interaction,
            final(timeline).last_dream_time == old(timeline).last_dream_time,
            final(timeline).last_diary_time == old(timeline).last_diary_time,
            final(timeline).event_manager == old(timeline).event_manager,
    {
        let emotional_tick = timeline.should_emotional_tick(now);
        if emotional_tick {
            timeline.last_emotional_tick = now;
        }
        let mut inactivity: Option<InactivityFinding> = None;
        if timeline.should_check_inactivity(now) {
            let secs = elapsed_seconds(timeline.last_interaction, now);
            let hours: i64 = if secs >= 0 {
                (secs / 3600) as i64
            } else {
                0
            };
            if hours >= 72 {
                let mut d = "主人已经".to_owned();
                let digits = decimal_chars(hours as u64);
                d.append(string_of(&digits).as_str());
                d.append("小时没有和我互动了...");
                inactivity = Some(
                    InactivityFinding { kind: InactivityKind::Ignored, hours_away: hours, description: d },
                );
                timeline.last_inactivity_event = now;
            } else if hours >= 24 {
                let mut d = "主人已经".to_owned();
                let digits = decimal_chars(hours as u64);
                d.append(string_of(&digits).as_str());
                d.append("小时没来了...");
                inactivity = Some(
                    InactivityFinding { kind: InactivityKind::Neglected, hours_away: hours, description: d },
                );
                timeline.last_inactivity_event = now;
            }
        }
        let curiosity_triggered = if timeline.should_check_curiosity(now) {
            timeline.last_curiosity_check = now;
            curiosity_ready
        } else {
            false
        };
        let dream_triggered = timeline.should_generate_dream(now);
        let diary_triggered = timeline.should_generate_diary(now);
        TickPlan { emotional_tick, inactivity, curiosity_triggered, dream_triggered, diary_triggered }
    }
}

/// The levels of neglect: absent 72 whole hours or more, the pet feels
/// ignored; absent 24 to 71 hours, neglected; less than a day, nothing. A
/// check finds the pet ignored exactly when the status reports the owner
/// very inactive (`hours_between >= 72`), and neglect of either kind
/// exactly when it reports the owner inactive (`hours_between >= 24`).
pub proof fn law_inactivity_levels(from: i64, to: i64)
    ensures
        (inactivity_kind(hours_between(from, to)) == Some(InactivityKind::Ignored)) == (
        hours_between(from, to) >= 72),
        (inactivity_kind(hours_between(from, to)) == Some(InactivityKind::Neglected)) == (24
            <= hours_between(from, to) < 72),
        (inactivity_kind(hours_between(from, to)) is Some) == (hours_between(from, to) >= 24),
{
}

} // verus!
