//! The kinds of emotional events, the bounded event log, and the
//! curiosity levels.
use vstd::prelude::*;
use crate::text::{str_equals};

verus! {

/// What happened between the owner and the pet.
#[derive(Clone, Copy, Debug, PartialEq, Eq, Structural)]
pub enum EmotionalEventType {
    UserInitiatedChat,
    UserCaredAboutPet,
    UserPraisedPet,
    UserSharedPersonalStory,
    UserCelebratedTogether,
    FirstConversation,
    BirthdayCelebrated,
    UserIgnoredPet,
    UserGotAngry,
    UserDismissedPet,
    NormalChat,
    CuriosityTriggered,
}

impl EmotionalEventType {
    /// The event type's name, as stored and displayed.
    pub open spec fn spec_name(self) -> Seq<char> {
        match self {
            EmotionalEventType::UserInitiatedChat => "UserInitiatedChat"@,
            EmotionalEventType::UserCaredAboutPet => "UserCaredAboutPet"@,
            EmotionalEventType::UserPraisedPet => "UserPraisedPet"@,
            EmotionalEventType::UserSharedPersonalStory => "UserSharedPersonalStory"@,
            EmotionalEventType::UserCelebratedTogether => "UserCelebratedTogether"@,
            EmotionalEventType::FirstConversation => "FirstConversation"@,
            EmotionalEventType::BirthdayCelebrated => "BirthdayCelebrated"@,
            EmotionalEventType::UserIgnoredPet => "UserIgnoredPet"@,
            EmotionalEventType::UserGotAngry => "UserGotAngry"@,
            EmotionalEventType::UserDismissedPet => "UserDismissedPet"@,
            EmotionalEventType::NormalChat => "NormalChat"@,
            EmotionalEventType::CuriosityTriggered => "CuriosityTriggered"@,
        }
    }

    /// The event type's name, as stored and displayed.
    pub fn name(&self) -> (s: &'static str)
        ensures
            s@ == self.spec_name(),
    {
        match self {
            EmotionalEventType::UserInitiatedChat => "UserInitiatedChat",
            EmotionalEventType::UserCaredAboutPet => "UserCaredAboutPet",
            EmotionalEventType::UserPraisedPet => "UserPraisedPet",
            EmotionalEventType::UserSharedPersonalStory => "UserSharedPersonalStory",
            EmotionalEventType::UserCelebratedTogether => "UserCelebratedTogether",
            EmotionalEventType::FirstConversation => "FirstConversation",
            EmotionalEventType::BirthdayCelebrated => "BirthdayCelebrated",
            EmotionalEventType::UserIgnoredPet => "UserIgnoredPet",
            EmotionalEventType::UserGotAngry => "UserGotAngry",
            EmotionalEventType::UserDismissedPet => "UserDismissedPet",
            EmotionalEventType::NormalChat => "NormalChat",
            EmotionalEventType::CuriosityTriggered => "CuriosityTriggered",
        }
    }

    /// Milestones: the first conversation, a birthday, a celebration.
    pub open spec fn spec_is_milestone(self) -> bool {
        self == EmotionalEventType::FirstConversation || self
            == EmotionalEventType::BirthdayCelebrated || self
            == EmotionalEventType::UserCelebratedTogether
    }

    /// Whether events of this type are milestones.
    pub fn is_milestone(&self) -> (b: bool)
        ensures
            b == self.spec_is_milestone(),
    {
        match self {
            EmotionalEventType::FirstConversation => true,
            EmotionalEventType::BirthdayCelebrated => true,
            EmotionalEventType::UserCelebratedTogether => true,
            _ => false,
        }
    }
}

/// The event type whose name is `s`, if any.
pub open spec fn event_type_named(s: Seq<char>) -> Option<EmotionalEventType> {
    if s == "UserInitiatedChat"@ {
        Some(EmotionalEventType::UserInitiatedChat)
    } else
    if s == "UserCaredAboutPet"@ {
        Some(EmotionalEventType::UserCaredAboutPet)
    } else
    if s == "UserPraisedPet"@ {
        Some(EmotionalEventType::UserPraisedPet)
    } else
    if s == "UserSharedPersonalStory"@ {
        Some(EmotionalEventType::UserSharedPersonalStory)
    } else
    if s == "UserCelebratedTogether"@ {
        Some(EmotionalEventType::UserCelebratedTogether)
    } else
    if s == "FirstConversation"@ {
        Some(EmotionalEventType::FirstConversation)
    } else
    if s == "BirthdayCelebrated"@ {
        Some(EmotionalEventType::BirthdayCelebrated)
    } else
    if s == "UserIgnoredPet"@ {
        Some(EmotionalEventType::UserIgnoredPet)
    } else
    if s == "UserGotAngry"@ {
        Some(EmotionalEventType::UserGotAngry)
    } else
    if s == "UserDismissedPet"@ {
        Some(EmotionalEventType::UserDismissedPet)
    } else
    if s == "NormalChat"@ {
        Some(EmotionalEventType::NormalChat)
    } else
    if s == "CuriosityTriggered"@ {
        Some(EmotionalEventType::CuriosityTriggered)
    } else {
        None
    }
}

fn event_type_named_exec(s: &str) -> (r: Option<EmotionalEventType>)
    ensures
        r == event_type_named(s@),
{
    if str_equals(s, "UserInitiatedChat") {
        Some(EmotionalEventType::UserInitiatedChat)
    } else
    if str_equals(s, "UserCaredAboutPet") {
        Some(EmotionalEventType::UserCaredAboutPet)
    } else
    if str_equals(s, "UserPraisedPet") {
        Some(EmotionalEventType::UserPraisedPet)
    } else
    if str_equals(s, "UserSharedPersonalStory") {
        Some(EmotionalEventType::UserSharedPersonalStory)
    } else
    if str_equals(s, "UserCelebratedTogether") {
        Some(EmotionalEventType::UserCelebratedTogether)
    } else
    if str_equals(s, "FirstConversation") {
        Some(EmotionalEventType::FirstConversation)
    } else
    if str_equals(s, "BirthdayCelebrated") {
        Some(EmotionalEventType::BirthdayCelebrated)
    } else
    if str_equals(s, "UserIgnoredPet") {
        Some(EmotionalEventType::UserIgnoredPet)
    } else
    if str_equals(s, "UserGotAngry") {
        Some(EmotionalEventType::UserGotAngry)
    } else
    if str_equals(s, "UserDismissedPet") {
        Some(EmotionalEventType::UserDismissedPet)
    } else
    if str_equals(s, "NormalChat") {
        Some(EmotionalEventType::NormalChat)
    } else
    if str_equals(s, "CuriosityTriggered") {
        Some(EmotionalEventType::CuriosityTriggered)
    } else {
        None
    }
}

/// The event type named by an analysis; unknown names count as a normal
/// chat.
pub fn parse_event_type(type_str: &str) -> (t: EmotionalEventType)
    ensures
        t == match event_type_named(type_str@) {
            Some(t) => t,
            None => EmotionalEventType::NormalChat,
        },
{
    match event_type_named_exec(type_str) {
        Some(t) => t,
        None => EmotionalEventType::NormalChat,
    }
}

/// The event type a command names, or the message that rejects an
/// unknown name.
pub fn parse_event_type_strict(type_str: &str) -> (r: Result<EmotionalEventType, String>)
    ensures
        event_type_named(type_str@) matches Some(t) ==> r == Ok::<EmotionalEventType, String>(t),
        event_type_named(type_str@) is None ==> (r matches Err(e) && e@ == "Unknown event type: "@
            + type_str@),
{
    match event_type_named_exec(type_str) {
        Some(t) => Ok(t),
        None => {
            let mut e = "Unknown event type: ".to_owned();
            e.append(type_str);
            Err(e)
        },
    }
}

/// A name picks out exactly the type it is the name of.
pub proof fn law_event_type_names_round_trip(t: EmotionalEventType)
    ensures
        event_type_named(t.spec_name()) == Some(t),
{
    reveal_strlit("UserInitiatedChat");
    reveal_strlit("UserCaredAboutPet");
    reveal_strlit("UserPraisedPet");
    reveal_strlit("UserSharedPersonalStory");
    reveal_strlit("UserCelebratedTogether");
    reveal_strlit("FirstConversation");
    reveal_strlit("BirthdayCelebrated");
    reveal_strlit("UserIgnoredPet");
    reveal_strlit("UserGotAngry");
    reveal_strlit("UserDismissedPet");
    reveal_strlit("NormalChat");
    reveal_strlit("CuriosityTriggered");
    assert("UserInitiatedChat"@[4] != "UserCaredAboutPet"@[4]);
    assert("UserInitiatedChat"@[0] != "FirstConversation"@[0]);
    assert("UserCaredAboutPet"@[0] != "FirstConversation"@[0]);
    assert("UserPraisedPet"@[4] != "UserIgnoredPet"@[4]);
    assert("BirthdayCelebrated"@[0] != "CuriosityTriggered"@[0]);
    match t {
        EmotionalEventType::UserInitiatedChat => {
            assert(t.spec_name() == "UserInitiatedChat"@);
            assert(event_type_named("UserInitiatedChat"@) == Some(EmotionalEventType::UserInitiatedChat));
        },
        EmotionalEventType::UserCaredAboutPet => {
            assert(t.spec_name() == "UserCaredAboutPet"@);
            assert(event_type_named("UserCaredAboutPet"@) == Some(EmotionalEventType::UserCaredAboutPet));
        },
        EmotionalEventType::UserPraisedPet => {
            assert(t.spec_name() == "UserPraisedPet"@);
            assert(event_type_named("UserPraisedPet"@) == Some(EmotionalEventType::UserPraisedPet));
        },
        EmotionalEventType::UserSharedPersonalStory => {
            assert(t.spec_name() == "UserSharedPersonalStory"@);
            assert(event_type_named("UserSharedPersonalStory"@) == Some(EmotionalEventType::UserSharedPersonalStory));
        },
        EmotionalEventType::UserCelebratedTogether => {
            assert(t.spec_name() == "UserCelebratedTogether"@);
            assert(event_type_named("UserCelebratedTogether"@) == Some(EmotionalEventType::UserCelebratedTogether));
        },
        EmotionalEventType::FirstConversation => {
            assert(t.spec_name() == "FirstConversation"@);
            assert(event_type_named("FirstConversation"@) == Some(EmotionalEventType::FirstConversation));
        },
        EmotionalEventType::BirthdayCelebrated => {
            assert(t.spec_name() == "BirthdayCelebrated"@);
            assert(event_type_named("BirthdayCelebrated"@) == Some(EmotionalEventType::BirthdayCelebrated));
        },
        EmotionalEventType::UserIgnoredPet => {
            assert(t.spec_name() == "UserIgnoredPet"@);
            assert(event_type_named("UserIgnoredPet"@) == Some(EmotionalEventType::UserIgnoredPet));
        },
        EmotionalEventType::UserGotAngry => {
            assert(t.spec_name() == "UserGotAngry"@);
            assert(event_type_named("UserGotAngry"@) == Some(EmotionalEventType::UserGotAngry));
        },
        EmotionalEventType::UserDismissedPet => {
            assert(t.spec_name() == "UserDismissedPet"@);
            assert(event_type_named("UserDismissedPet"@) == Some(EmotionalEventType::UserDismissedPet));
        },
        EmotionalEventType::NormalChat => {
            assert(t.spec_name() == "NormalChat"@);
            assert(event_type_named("NormalChat"@) == Some(EmotionalEventType::NormalChat));
        },
        EmotionalEventType::CuriosityTriggered => {
            assert(t.spec_name() == "CuriosityTriggered"@);
            assert(event_type_named("CuriosityTriggered"@) == Some(EmotionalEventType::CuriosityTriggered));
        },
    }
}

/// `s` with `x` appended, then cut to its last `cap` elements when longer.
pub open spec fn pushed_bounded<T>(s: Seq<T>, x: T, cap: nat) -> Seq<T> {
    let t = s.push(x);
    if t.len() > cap {
        t.skip(t.len() - cap)
    } else {
        t
    }
}

/// A bounded log never holds more than its capacity, keeps the newest
/// element, and keeps the most recent elements in their order.
pub proof fn law_bounded_log<T>(s: Seq<T>, x: T, cap: nat)
    ensures
        pushed_bounded(s, x, cap).len() == if s.len() + 1 > cap {
            cap
        } else {
            s.len() + 1
        },
        s.len() < cap ==> pushed_bounded(s, x, cap) == s.push(x),
        cap > 0 ==> pushed_bounded(s, x, cap).last() == x,
        pushed_bounded(s, x, cap) =~= s.push(x).skip(s.len() + 1 - pushed_bounded(s, x, cap).len()),
{
}

/// Appends `x` and drops the oldest elements until at most `cap` remain.
pub fn push_bounded<T>(v: &mut Vec<T>, x: T, cap: usize)
    ensures
        final(v)@ == pushed_bounded(old(v)@, x, cap as nat),
{
    v.push(x);
    let ghost t = v@;
    while v.len() > cap
        invariant
            t == old(v)@.push(x),
            v@.len() <= t.len(),
            v@.len() == t.len() || v@.len() >= cap,
            v@ == t.skip(t.len() - v@.len()),
        decreases v@.len(),
    {
        v.remove(0);
        assert(v@ =~= t.skip(t.len() - v@.len()));
    }
    assert(t.skip(0) =~= t);
}

/// The log of recent emotional events, capped at 100.
pub struct EmotionalEventManager<E> {
    pub events: Vec<E>,
}

impl<E> EmotionalEventManager<E> {
    /// An empty log.
    pub fn new() -> (m: Self)
        ensures
            m.events@ == Seq::<E>::empty(),
    {
        EmotionalEventManager { events: Vec::new() }
    }

    /// Records an event, dropping the oldest ones beyond 100.
    pub fn add_event(&mut self, event: E)
        ensures
            final(self).events@ == pushed_bounded(old(self).events@, event, 100),
    {
        push_bounded(&mut self.events, event, 100);
    }

    /// The last `count` events (all of them when fewer are held).
    pub fn get_recent_events(&self, count: usize) -> (r: &[E])
        ensures
            r@.len() == if count < self.events@.len() {
                count as int
            } else {
                self.events@.len() as int
            },
            r@ == self.events@.subrange(self.events@.len() - r@.len(), self.events@.len() as int),
    {
        let start = if self.events.len() >= count {
            self.events.len() - count
        } else {
            0
        };
        let (_, tail) = self.events.as_slice().split_at(start);
        tail
    }
}

/// The impression snippets after a new one: a non-empty snippet is
/// appended and only the newest 20 are kept.
pub open spec fn snippets_after(snippets: Seq<Seq<char>>, snippet: Option<Seq<char>>) -> Seq<Seq<char>> {
    match snippet {
        Some(s) => if s.len() > 0 {
            pushed_bounded(snippets, s, 20)
        } else {
            snippets
        },
        None => snippets,
    }
}

/// Records a new impression snippet, keeping the newest 20.
pub fn update_snippet(snippets: &mut Vec<String>, snippet: &Option<String>)
    ensures
        crate::text::string_views(final(snippets)@) == snippets_after(
            crate::text::string_views(old(snippets)@),
            match snippet {
                Some(s) => Some(s@),
                None => None,
            },
        ),
{
    if let Some(s) = snippet {
        if !s.as_str().is_empty() {
            let ghost before = old(snippets)@;
            let copy = s.clone();
            push_bounded(snippets, copy, 20);
            proof {
                let t = before.push(copy);
                assert(crate::text::string_views(t) =~= crate::text::string_views(before).push(s@));
                if t.len() > 20 {
                    assert(crate::text::string_views(t.skip(t.len() - 20)) =~= crate::text::string_views(t).skip(t.len() - 20));
                }
            }
        }
    }
}

/// The curiosity level whose name is `s`, if any.
pub open spec fn curiosity_level_named(s: Seq<char>) -> Option<CuriosityLevel> {
    if s == "Off"@ {
        Some(CuriosityLevel::Off)
    } else if s == "Normal"@ {
        Some(CuriosityLevel::Normal)
    } else if s == "Enhanced"@ {
        Some(CuriosityLevel::Enhanced)
    } else {
        None
    }
}

/// A curiosity level's name reads back as that level.
pub proof fn law_curiosity_level_names_round_trip(l: CuriosityLevel)
    ensures
        curiosity_level_named(l.spec_name()) == Some(l),
{
    reveal_strlit("Off");
    reveal_strlit("Normal");
    reveal_strlit("Enhanced");
    assert("Off"@.len() != "Normal"@.len());
    assert("Off"@.len() != "Enhanced"@.len());
    assert("Normal"@.len() != "Enhanced"@.len());
}

/// How curious the pet is allowed to be.
#[derive(Clone, Copy, Debug, PartialEq, Eq, Structural)]
pub enum CuriosityLevel {
    Off,
    Normal,
    Enhanced,
}

impl CuriosityLevel {
    /// The level's name, as displayed.
    pub open spec fn spec_name(self) -> Seq<char> {
        match self {
            CuriosityLevel::Off => "Off"@,
            CuriosityLevel::Normal => "Normal"@,
            CuriosityLevel::Enhanced => "Enhanced"@,
        }
    }

    /// The level a command names, or the message that rejects an unknown
    /// name.
    pub fn parse(level: &str) -> (r: Result<CuriosityLevel, String>)
        ensures
            match curiosity_level_named(level@) {
                Some(l) => r == Ok::<CuriosityLevel, String>(l),
                None => r matches Err(e) && e@ == "Unknown curiosity level: "@ + level@
                    + ". Use Off/Normal/Enhanced"@,
            },
    {
        proof {
            reveal_strlit("Off");
            reveal_strlit("Normal");
            reveal_strlit("Enhanced");
            assert("Off"@.len() != "Normal"@.len());
            assert("Off"@.len() != "Enhanced"@.len());
            assert("Normal"@.len() != "Enhanced"@.len());
        }
        if str_equals(level, "Off") {
            Ok(CuriosityLevel::Off)
        } else if str_equals(level, "Normal") {
            Ok(CuriosityLevel::Normal)
        } else if str_equals(level, "Enhanced") {
            Ok(CuriosityLevel::Enhanced)
        } else {
            let mut e = "Unknown curiosity level: ".to_owned();
            e.append(level);
            e.append(". Use Off/Normal/Enhanced");
            Err(e)
        }
    }

    /// The level's name, as displayed.
    pub fn name(&self) -> (s: &'static str)
        ensures
            s@ == self.spec_name(),
    {
        match self {
            CuriosityLevel::Off => "Off",
            CuriosityLevel::Normal => "Normal",
            CuriosityLevel::Enhanced => "Enhanced",
        }
    }
}

} // verus!
