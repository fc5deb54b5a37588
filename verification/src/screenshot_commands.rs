//! Screenshots shown to the pet: the messages saved for them, and the
//! decisions of the background look at the owner's screen that the
//! enhanced curiosity mode makes.
use vstd::prelude::*;
use crate::emotion::CuriosityLevel;
use crate::json_text::{first_index, first_index_exec, last_index};
use crate::text::{chars_of, slice_chars, string_of};

verus! {

broadcast use vstd::string::group_string_axioms;

/// Captures the screen for the pet to look at.
pub struct ScreenshotService;

impl ScreenshotService {
    /// The service.
    pub fn new() -> (s: Self) {
        ScreenshotService
    }

    /// The screen as a base64 PNG. Capturing goes through the Windows
    /// graphics interface, which this library does not reach; it answers
    /// that the capture is not supported here.
    pub fn capture_screen() -> (r: Result<String, String>)
        ensures
            r matches Err(e) && e@ == "Screenshot capture is only supported on Windows"@,
    {
        Err("Screenshot capture is only supported on Windows".to_owned())
    }

    /// The bounds (x, y, width, height) of the virtual screen, which spans
    /// every monitor. They are read through the Windows graphics interface,
    /// which this library does not reach; it answers that they cannot be
    /// read here.
    pub fn virtual_screen_bounds() -> (r: Result<(i32, i32, i32, i32), String>)
        ensures
            r matches Err(e) && e@ == "Virtual screen bounds is only supported on Windows"@,
    {
        Err("Virtual screen bounds is only supported on Windows".to_owned())
    }
}

/// The question asked about a screenshot: the owner's, or a default one.
pub open spec fn screenshot_question_text(question: Option<Seq<char>>) -> Seq<char> {
    match question {
        Some(q) => q,
        None => "请看看这张截图，告诉我你看到了什么？你对这些内容有什么想法？"@,
    }
}

/// The question asked about a screenshot.
pub fn screenshot_question(question: Option<&str>) -> (q: String)
    ensures
        q@ == screenshot_question_text(
            match question {
                Some(t) => Some(t@),
                None => None,
            },
        ),
{
    match question {
        Some(t) => t.to_owned(),
        None => "请看看这张截图，告诉我你看到了什么？你对这些内容有什么想法？".to_owned(),
    }
}

/// The owner's message saved in the chat history for a screenshot: the
/// question with a camera, or just the camera and `截图`.
pub open spec fn screenshot_message_text(question: Option<Seq<char>>) -> Seq<char> {
    match question {
        Some(q) => "📷 "@ + q,
        None => "📷 截图"@,
    }
}

/// The owner's message saved in the chat history for a screenshot.
pub fn screenshot_user_message(question: Option<&str>) -> (m: String)
    ensures
        m@ == screenshot_message_text(
            match question {
                Some(t) => Some(t@),
                None => None,
            },
        ),
{
    match question {
        Some(q) => {
            let mut m = "📷 ".to_owned();
            m.append(q);
            m
        },
        None => "📷 截图".to_owned(),
    }
}

/// Why the background look at the screen is not taken: no AI settings, no
/// ghost, or curiosity not in the enhanced mode; `None` when it is taken.
pub open spec fn background_refusal_text(has_config: bool, has_ghost: bool, level: CuriosityLevel) -> Option<
    Seq<char>,
> {
    if !has_config {
        Some("AI not configured"@)
    } else if !has_ghost {
        Some("No ghost"@)
    } else if level != CuriosityLevel::Enhanced {
        Some("Not in Enhanced mode"@)
    } else {
        None
    }
}

/// Why the background look at the screen is not taken, if it is not.
pub fn background_refusal(has_config: bool, has_ghost: bool, level: CuriosityLevel) -> (r: Option<
    &'static str,
>)
    ensures
        match r {
            Some(t) => background_refusal_text(has_config, has_ghost, level) == Some(t@),
            None => background_refusal_text(has_config, has_ghost, level) is None,
        },
{
    if !has_config {
        Some("AI not configured")
    } else if !has_ghost {
        Some("No ghost")
    } else {
        match level {
            CuriosityLevel::Enhanced => None,
            _ => Some("Not in Enhanced mode"),
        }
    }
}

/// The request with which the pet looks at the owner's screen in the
/// background: what the owner seems to be doing, and the owner's traits.
pub open spec fn observation_prompt_text(name: Seq<char>) -> Seq<char> {
    "你是"@ + name
        + "，一个桌宠。你正在后台好奇地观察主人的屏幕。请用一句话简要描述主人似乎在做什么（如'主人正在看技术文档'或'主人在玩游戏'）。同时评估主人此刻表现出的性格倾向，按6个维度各给-1到+1的值。严格按JSON格式回复：{\"activity\": \"...\", \"openness\": 0, \"conscientiousness\": 0, \"extraversion\": 0, \"agreeableness\": 0, \"neuroticism\": 0, \"creativity\": 0}"@
}

/// The request with which the pet looks at the owner's screen.
pub fn observation_prompt(name: &str) -> (s: String)
    ensures
        s@ == observation_prompt_text(name@),
{
    let mut s = "你是".to_owned();
    s.append(name);
    s.append(
        "，一个桌宠。你正在后台好奇地观察主人的屏幕。请用一句话简要描述主人似乎在做什么（如'主人正在看技术文档'或'主人在玩游戏'）。同时评估主人此刻表现出的性格倾向，按6个维度各给-1到+1的值。严格按JSON格式回复：{\"activity\": \"...\", \"openness\": 0, \"conscientiousness\": 0, \"extraversion\": 0, \"agreeableness\": 0, \"neuroticism\": 0, \"creativity\": 0}",
    );
    s
}

/// The JSON object in a reply: from its first `{` to its last `}`, when
/// the last comes after the first.
pub open spec fn object_span(raw: Seq<char>) -> Option<Seq<char>> {
    match (first_index(raw, '{'), last_index(raw, '}')) {
        (Some(a), Some(b)) => if b > a {
            Some(raw.subrange(a, b + 1))
        } else {
            None
        },
        _ => None,
    }
}

fn last_index_exec(s: &Vec<char>, c: char) -> (r: Option<usize>)
    ensures
        r matches Some(i) ==> i < s@.len() && last_index(s@, c) == Some(i as int),
        r is None ==> last_index(s@, c) is None,
{
    let mut i: usize = s.len();
    while i > 0
        invariant
            i <= s@.len(),
            forall|j: int| i <= j < s@.len() ==> s@[j] != c,
        decreases i,
    {
        if s[i - 1] == c {
            proof {
                let k = choose|k: int|
                    0 <= k < s@.len() && s@[k] == c && forall|j: int| k < j < s@.len() ==> s@[j] != c;
                assert(k == i - 1) by {
                    if k > i - 1 {
                    } else if k < i - 1 {
                        assert(s@[i - 1] != c);
                    }
                }
            }
            return Some(i - 1);
        }
        i = i - 1;
    }
    None
}

/// The JSON object in a reply, if there is one.
pub fn json_object_span(raw: &str) -> (r: Option<String>)
    ensures
        match r {
            Some(t) => object_span(raw@) == Some(t@),
            None => object_span(raw@) is None,
        },
{
    let cs = chars_of(raw);
    let n = cs.len();
    match (first_index_exec(&cs, '{'), last_index_exec(&cs, '}')) {
        (Some(a), Some(b)) => if b > a {
            assert(b < n);
            Some(string_of(&slice_chars(&cs, a, b + 1)))
        } else {
            None
        },
        _ => None,
    }
}

/// What `serde_json` reads from the observation: `None` when it is not
/// JSON, else its `activity` when that is a string.
pub uninterp spec fn observation_activity(json: Seq<char>) -> Option<Option<Seq<char>>>;

/// Parses the observation with `serde_json::from_str::<Value>` and reads
/// its `activity`; the result is named `observation_activity` of the text.
#[verifier::external_body]
fn parse_observation_activity(json: &str) -> (r: Option<Option<String>>)
    ensures
        match r {
            None => observation_activity(json@) is None,
            Some(None) => observation_activity(json@) == Some(None::<Seq<char>>),
            Some(Some(a)) => observation_activity(json@) == Some(Some(a@)),
        },
{
    let v: serde_json::Value = serde_json::from_str(json).ok()?;
    Some(v["activity"].as_str().map(|a| a.to_owned()))
}

/// What the owner seems to be doing, from what was read from the
/// observation: an error when it was not valid JSON; a missing activity
/// reads as `主人正在使用电脑`.
pub open spec fn activity_text_of(activity: Option<Option<Seq<char>>>) -> Result<Seq<char>, Seq<char>> {
    match activity {
        None => Err("JSON parse error"@),
        Some(Some(a)) => Ok(a),
        Some(None) => Ok("主人正在使用电脑"@),
    }
}

/// What the owner seems to be doing according to the model's reply, or why
/// the reply could not be read: no JSON object in it, or not valid JSON. A
/// missing activity reads as `主人正在使用电脑`.
pub open spec fn observed_activity_text(raw: Seq<char>) -> Result<Seq<char>, Seq<char>> {
    match object_span(raw) {
        None => Err("Parse error"@),
        Some(j) => activity_text_of(observation_activity(j)),
    }
}

/// The view of what was read from the observation.
pub open spec fn activity_view(activity: Option<Option<String>>) -> Option<Option<Seq<char>>> {
    match activity {
        None => None,
        Some(None) => Some(None),
        Some(Some(a)) => Some(Some(a@)),
    }
}

/// What the owner seems to be doing according to the model's reply.
pub fn observed_activity(raw: &str) -> (r: Result<String, &'static str>)
    ensures
        match r {
            Ok(a) => observed_activity_text(raw@) == Ok::<Seq<char>, Seq<char>>(a@),
            Err(e) => observed_activity_text(raw@) == Err::<Seq<char>, Seq<char>>(e@),
        },
{
    match json_object_span(raw) {
        None => Err("Parse error"),
        Some(j) => {
            let activity = parse_observation_activity(j.as_str());
            observed_activity_of(activity)
        },
    }
}

/// What the owner seems to be doing, given what was read from the JSON
/// object of the observation (`None` where it was not valid JSON, else its
/// `activity` where that is a string).
pub fn observed_activity_of(activity: Option<Option<String>>) -> (r: Result<String, &'static str>)
    ensures
        match r {
            Ok(a) => activity_text_of(activity_view(activity)) == Ok::<Seq<char>, Seq<char>>(a@),
            Err(e) => activity_text_of(activity_view(activity)) == Err::<Seq<char>, Seq<char>>(e@),
        },
{
    match activity {
        None => Err("JSON parse error"),
        Some(Some(a)) => Ok(a),
        Some(None) => Ok("主人正在使用电脑".to_owned()),
    }
}

/// The impression the pet keeps of an observation.
pub fn observation_snippet(activity: &str) -> (s: String)
    ensures
        s@ == "(好奇观察) "@ + activity@,
{
    let mut s = "(好奇观察) ".to_owned();
    s.append(activity);
    s
}

} // verus!
