//! The decisions of a chat turn and of the achievement and document
//! commands: which stored messages make up the conversation, how an image
//! request is cut out of a reply, the notes and summaries saved after a
//! turn, which achievements are earned, and the works described to the pet.
use vstd::prelude::*;
use crate::ai_service::{truncate_str, truncated, AIProviderConfig, ChatMessage};
use crate::chat_history::ChatMessageRow;
use crate::local_compressor::{remove_all, remove_all_exec};
use crate::text::{
    chars_of, contains, contains_exec, find_from, join, slice_chars, str_equals, string_of,
    string_views, trim, trim_chars,
};
use vstd::utf8::encode_utf8;
use crate::weather::{find_first, lemma_find_first, lemma_find_first_found};

verus! {

broadcast use vstd::string::group_string_axioms;

/// Shortens a text to `max_chars` characters, marking the cut with `...`.
pub fn truncate(s: &str, max_chars: usize) -> (r: String)
    ensures
        r@ == truncated(s@, max_chars as nat),
{
    truncate_str(s, max_chars)
}

/// The display name of an achievement.
pub open spec fn achievement_name(key: Seq<char>) -> Seq<char> {
    if key == "first_chat"@ {
        "初次对话"@
    } else if key == "chat_10"@ {
        "话痨"@
    } else if key == "chat_100"@ {
        "挚友"@
    } else if key == "love_50"@ {
        "暖心"@
    } else if key == "love_80"@ {
        "亲密"@
    } else if key == "transfer_1"@ {
        "新生"@
    } else if key == "dream_first"@ {
        "初梦"@
    } else {
        "未知成就"@
    }
}

/// The display name of an achievement.
pub fn get_achievement_name(key: &str) -> (r: &'static str)
    ensures
        r@ == achievement_name(key@),
{
    if str_equals(key, "first_chat") {
        "初次对话"
    } else if str_equals(key, "chat_10") {
        "话痨"
    } else if str_equals(key, "chat_100") {
        "挚友"
    } else if str_equals(key, "love_50") {
        "暖心"
    } else if str_equals(key, "love_80") {
        "亲密"
    } else if str_equals(key, "transfer_1") {
        "新生"
    } else if str_equals(key, "dream_first") {
        "初梦"
    } else {
        "未知成就"
    }
}

/// What an achievement stands for.
pub open spec fn achievement_desc(key: Seq<char>) -> Seq<char> {
    if key == "first_chat"@ {
        "完成了第一次交流"@
    } else if key == "chat_10"@ {
        "累计20条对话"@
    } else if key == "chat_100"@ {
        "累计200条对话"@
    } else if key == "love_50"@ {
        "好感度突破50"@
    } else if key == "love_80"@ {
        "好感度突破80"@
    } else if key == "transfer_1"@ {
        "完成第一次灵魂传送"@
    } else if key == "dream_first"@ {
        "第一次做梦"@
    } else {
        ""@
    }
}

/// What an achievement stands for.
pub fn get_achievement_desc(key: &str) -> (r: &'static str)
    ensures
        r@ == achievement_desc(key@),
{
    if str_equals(key, "first_chat") {
        "完成了第一次交流"
    } else if str_equals(key, "chat_10") {
        "累计20条对话"
    } else if str_equals(key, "chat_100") {
        "累计200条对话"
    } else if str_equals(key, "love_50") {
        "好感度突破50"
    } else if str_equals(key, "love_80") {
        "好感度突破80"
    } else if str_equals(key, "transfer_1") {
        "完成第一次灵魂传送"
    } else if str_equals(key, "dream_first") {
        "第一次做梦"
    } else {
        ""
    }
}

/// `key` when `earned`, else nothing.
pub open spec fn if_earned(earned: bool, key: Seq<char>) -> Seq<Seq<char>> {
    if earned {
        seq![key]
    } else {
        Seq::empty()
    }
}

/// The achievements whose conditions hold, in the order they are checked:
/// 2, 20 and 200 chat messages, affection at 50 and 80, a transfer (a
/// generation above 1), and a first dream.
pub open spec fn earned_achievements(
    chat_count: nat,
    dream_count: nat,
    generation: nat,
    love_at_50: bool,
    love_at_80: bool,
) -> Seq<Seq<char>> {
    if_earned(chat_count >= 2, "first_chat"@) + if_earned(chat_count >= 20, "chat_10"@)
        + if_earned(chat_count >= 200, "chat_100"@) + if_earned(love_at_50, "love_50"@)
        + if_earned(love_at_80, "love_80"@) + if_earned(generation > 1, "transfer_1"@)
        + if_earned(dream_count >= 1, "dream_first"@)
}

/// The keys of the achievements whose conditions hold, in the order they
/// are checked. `love_at_50` and `love_at_80` say whether affection has
/// reached 50 and 80.
pub fn achievement_checks(
    chat_count: usize,
    dream_count: usize,
    generation: u32,
    love_at_50: bool,
    love_at_80: bool,
) -> (r: Vec<String>)
    ensures
        string_views(r@) == earned_achievements(
            chat_count as nat,
            dream_count as nat,
            generation as nat,
            love_at_50,
            love_at_80,
        ),
{
    let mut r: Vec<String> = Vec::new();
    let ghost mut expect: Seq<Seq<char>> = Seq::empty();
    if chat_count >= 2 {
        r.push("first_chat".to_owned());
    }
    proof {
        expect = if_earned(chat_count >= 2, "first_chat"@);
        assert(string_views(r@) =~= expect);
    }
    if chat_count >= 20 {
        r.push("chat_10".to_owned());
    }
    proof {
        expect = expect + if_earned(chat_count >= 20, "chat_10"@);
        assert(string_views(r@) =~= expect);
    }
    if chat_count >= 200 {
        r.push("chat_100".to_owned());
    }
    proof {
        expect = expect + if_earned(chat_count >= 200, "chat_100"@);
        assert(string_views(r@) =~= expect);
    }
    if love_at_50 {
        r.push("love_50".to_owned());
    }
    proof {
        expect = expect + if_earned(love_at_50, "love_50"@);
        assert(string_views(r@) =~= expect);
    }
    if love_at_80 {
        r.push("love_80".to_owned());
    }
    proof {
        expect = expect + if_earned(love_at_80, "love_80"@);
        assert(string_views(r@) =~= expect);
    }
    if generation > 1 {
        r.push("transfer_1".to_owned());
    }
    proof {
        expect = expect + if_earned(generation > 1, "transfer_1"@);
        assert(string_views(r@) =~= expect);
    }
    if dream_count >= 1 {
        r.push("dream_first".to_owned());
    }
    proof {
        expect = expect + if_earned(dream_count >= 1, "dream_first"@);
        assert(string_views(r@) =~= expect);
    }
    r
}

/// A stored message that belongs to the dialogue: said by the user or the
/// assistant (not a system note).
pub open spec fn is_dialogue(m: ChatMessageRow) -> bool {
    m.role@ == "user"@ || m.role@ == "assistant"@
}

/// The role and content of each dialogue message of the history, in order.
pub open spec fn dialogue_turns(history: Seq<ChatMessageRow>) -> Seq<(Seq<char>, Seq<char>)>
    decreases history.len(),
{
    if history.len() == 0 {
        Seq::empty()
    } else {
        let rest = dialogue_turns(history.drop_last());
        let m = history.last();
        if is_dialogue(m) {
            rest.push((m.role@, m.content@))
        } else {
            rest
        }
    }
}

/// The role and content of each message.
pub open spec fn message_views(ms: Seq<ChatMessage>) -> Seq<(Seq<char>, Seq<char>)> {
    ms.map_values(|m: ChatMessage| (m.role@, m.content@))
}

/// The messages sent for a chat turn: the dialogue messages of the stored
/// history, in order, then the user's new message.
pub fn conversation_messages(history: &Vec<ChatMessageRow>, message: &str) -> (r: Vec<ChatMessage>)
    ensures
        message_views(r@) == dialogue_turns(history@).push(("user"@, message@)),
{
    let mut r: Vec<ChatMessage> = Vec::new();
    let mut i: usize = 0;
    while i < history.len()
        invariant
            i <= history@.len(),
            message_views(r@) == dialogue_turns(history@.take(i as int)),
        decreases history@.len() - i,
    {
        let m = &history[i];
        proof {
            assert(history@.take(i + 1).drop_last() =~= history@.take(i as int));
        }
        if str_equals(m.role.as_str(), "user") || str_equals(m.role.as_str(), "assistant") {
            r.push(ChatMessage { role: m.role.clone(), content: m.content.clone() });
        }
        assert(message_views(r@) =~= dialogue_turns(history@.take(i + 1)));
        i = i + 1;
    }
    assert(history@.take(history@.len() as int) =~= history@);
    r.push(ChatMessage { role: "user".to_owned(), content: message.to_owned() });
    assert(message_views(r@) =~= dialogue_turns(history@).push(("user"@, message@)));
    r
}

/// The tag with which a reply asks for a picture: `[GENERATE_IMAGE: ...]`.
pub open spec fn image_tag_open() -> Seq<char> {
    "[GENERATE_IMAGE:"@
}

/// A reply split into the text shown and, when it asks for a picture, the
/// picture's description. The request is the first `[GENERATE_IMAGE:`
/// closed by a later `]`; its description is what stands between the `:`
/// and the `]`, trimmed; every copy of the whole tag is removed from the
/// reply, which is then trimmed. A reply without a closed tag is kept as
/// it is.
pub open spec fn image_request(raw: Seq<char>) -> (Seq<char>, Option<Seq<char>>) {
    match find_first(raw, image_tag_open(), 0) {
        None => (raw, None),
        Some(pos) => match find_first(raw, seq![']'], pos) {
            None => (raw, None),
            Some(close) => {
                let marker = raw.subrange(pos, close + 1);
                (
                    trim(remove_all(raw, marker)),
                    Some(trim(marker.subrange(16, marker.len() - 1))),
                )
            },
        },
    }
}

/// Splits a reply into the text shown and the description of the picture
/// it asks for, if any.
pub fn split_image_request(raw: &str) -> (r: (String, Option<String>))
    ensures
        (r.0@, match r.1 {
            Some(p) => Some(p@),
            None => None,
        }) == image_request(raw@),
{
    proof {
        reveal_strlit("[GENERATE_IMAGE:");
    }
    let cs = chars_of(raw);
    let tag = chars_of("[GENERATE_IMAGE:");
    let mut close_v: Vec<char> = Vec::new();
    close_v.push(']');
    assert(close_v@ =~= seq![']']);
    let found = find_from(&cs, &tag, 0);
    proof {
        lemma_find_first(cs@, tag@, 0, match found {
            Some(i) => Some(i as int),
            None => None,
        });
    }
    match found {
        None => (raw.to_owned(), None),
        Some(pos) => {
            let end = find_from(&cs, &close_v, pos);
            proof {
                lemma_find_first(cs@, close_v@, pos as int, match end {
                    Some(i) => Some(i as int),
                    None => None,
                });
            }
            match end {
                None => (raw.to_owned(), None),
                Some(close) => {
                    assert(cs@.subrange(pos as int, pos + 16) == tag@);
                    let n = cs.len();
                    assert(close + 1 <= n);
                    assert(cs@.subrange(close as int, close + 1)[0] == cs@[close as int]);
                    assert(close >= pos + 16) by {
                        if close < pos + 16 {
                            assert(cs@[close as int] == ']');
                            assert(cs@.subrange(pos as int, pos + 16)[close - pos] == cs@[close as int]);
                            assert(tag@[close - pos] == ']');
                        }
                    }
                    let marker = slice_chars(&cs, pos, close + 1);
                    let inner = slice_chars(&marker, 16, marker.len() - 1);
                    let prompt = trim_chars(&inner);
                    let kept = remove_all_exec(&cs, &marker);
                    let shown = trim_chars(&kept);
                    (string_of(&shown), Some(string_of(&prompt)))
                },
            }
        },
    }
}

/// The note kept in memory of the pet's reply: its summary, cut to 200
/// characters with `…` when the summary is longer than 200 bytes of UTF-8.
pub open spec fn reply_note_summary(summary: Seq<char>) -> Seq<char> {
    if encode_utf8(summary).len() > 200 {
        (if summary.len() < 200 {
            summary
        } else {
            summary.take(200)
        }) + "…"@
    } else {
        summary
    }
}

/// The summary of the pet's reply as it is kept in memory.
pub fn reply_memory_summary(summary: &str) -> (r: String)
    ensures
        r@ == reply_note_summary(summary@),
{
    let cs = chars_of(summary);
    let bytes = crate::extract_service::byte_offset_exec(&cs, cs.len());
    assert(cs@.take(cs@.len() as int) =~= cs@);
    if bytes > 200 {
        let n = if cs.len() < 200 {
            cs.len()
        } else {
            200
        };
        let head = slice_chars(&cs, 0, n);
        let mut r = string_of(&head);
        r.append("…");
        r
    } else {
        summary.to_owned()
    }
}

/// The description of the emotional event of a chat turn: both sides cut
/// to 50 characters.
pub open spec fn exchange_text(message: Seq<char>, response: Seq<char>) -> Seq<char> {
    "对话: "@ + truncated(message, 50) + " -> "@ + truncated(response, 50)
}

/// The description of the emotional event of a chat turn.
pub fn exchange_description(message: &str, response: &str) -> (r: String)
    ensures
        r@ == exchange_text(message@, response@),
{
    let mut r = "对话: ".to_owned();
    r.append(truncate(message, 50).as_str());
    r.append(" -> ");
    r.append(truncate(response, 50).as_str());
    r
}

/// The summary of the conversation chunk saved after a chat turn: the
/// pet's name and both sides cut to 40 characters.
pub open spec fn chunk_text(name: Seq<char>, message: Seq<char>, response: Seq<char>) -> Seq<char> {
    name + ": "@ + truncated(message, 40) + " → "@ + truncated(response, 40)
}

/// The summary of the conversation chunk saved after a chat turn.
pub fn chunk_summary(name: &str, message: &str, response: &str) -> (r: String)
    ensures
        r@ == chunk_text(name@, message@, response@),
{
    let mut r = name.to_owned();
    r.append(": ");
    r.append(truncate(message, 40).as_str());
    r.append(" → ");
    r.append(truncate(response, 40).as_str());
    r
}

/// The event type recorded for a chat turn: `NormalChat` when the
/// sentiment analysis failed, `FirstConversation` for the first turn, else
/// the type the analysis gave.
pub open spec fn chat_event_type(first_conversation: bool, analyzed: Option<Seq<char>>) -> Seq<char> {
    match analyzed {
        None => "NormalChat"@,
        Some(t) => if first_conversation {
            "FirstConversation"@
        } else {
            t
        },
    }
}

/// The event type recorded for a chat turn; `analyzed` is the type the
/// sentiment analysis gave, `None` when it failed.
pub fn choose_chat_event_type(first_conversation: bool, analyzed: Option<&str>) -> (r: String)
    ensures
        r@ == chat_event_type(first_conversation, match analyzed {
            Some(t) => Some(t@),
            None => None,
        }),
{
    match analyzed {
        None => "NormalChat".to_owned(),
        Some(t) => if first_conversation {
            "FirstConversation".to_owned()
        } else {
            t.to_owned()
        },
    }
}

/// Whether a reply mentions a skill by name, ignoring case.
pub fn mentions_experience(response: &str, name: &str) -> (b: bool)
    ensures
        b == contains(
            crate::extract_service::lowercase(response@),
            crate::extract_service::lowercase(name@),
        ),
{
    let r = crate::extract_service::to_lowercase(response);
    let n = crate::extract_service::to_lowercase(name);
    let rc = chars_of(r.as_str());
    let nc = chars_of(n.as_str());
    contains_exec(&rc, &nc)
}

/// The text kept of an optional setting: `None` when it is missing or
/// blank.
pub open spec fn non_blank(s: Option<Seq<char>>) -> Option<Seq<char>> {
    match s {
        Some(t) => if trim(t).len() > 0 {
            Some(t)
        } else {
            None
        },
        None => None,
    }
}

fn non_blank_exec(s: Option<String>) -> (r: Option<String>)
    ensures
        (match r {
            Some(t) => Some(t@),
            None => None,
        }) == non_blank(match s {
            Some(t) => Some(t@),
            None => None,
        }),
{
    match s {
        Some(t) => {
            let cs = chars_of(t.as_str());
            if trim_chars(&cs).len() > 0 {
                Some(t)
            } else {
                None
            }
        },
        None => None,
    }
}

/// The view of an optional string.
pub open spec fn opt_view(s: Option<String>) -> Option<Seq<char>> {
    match s {
        Some(t) => Some(t@),
        None => None,
    }
}

/// Checks and builds the AI settings entered by the user: the endpoint,
/// key and model must not be blank (checked in that order); a blank image
/// endpoint or image key is dropped; speech input is left unset.
pub fn configure_ai(
    endpoint: String,
    api_key: String,
    model: String,
    vision_model: Option<String>,
    image_model: Option<String>,
    image_gen_endpoint: Option<String>,
    image_gen_api_key: Option<String>,
) -> (r: Result<AIProviderConfig, String>)
    ensures
        trim(endpoint@).len() == 0 ==> (r matches Err(e) && e@ == "Endpoint 不能为空"@),
        trim(endpoint@).len() > 0 && trim(api_key@).len() == 0 ==> (r matches Err(e) && e@
            == "API Key 不能为空"@),
        trim(endpoint@).len() > 0 && trim(api_key@).len() > 0 && trim(model@).len() == 0 ==> (
        r matches Err(e) && e@ == "Model 不能为空"@),
        trim(endpoint@).len() > 0 && trim(api_key@).len() > 0 && trim(model@).len() > 0 ==> (
        r matches Ok(c) && c.endpoint@ == endpoint@ && c.api_key@ == api_key@ && c.model@
            == model@ && opt_view(c.vision_model) == opt_view(vision_model) && opt_view(
            c.image_model,
        ) == opt_view(image_model) && opt_view(c.image_gen_endpoint) == non_blank(
            opt_view(image_gen_endpoint),
        ) && opt_view(c.image_gen_api_key) == non_blank(opt_view(image_gen_api_key))
            && c.is_default && c.stt_endpoint is None && c.stt_api_key is None
            && c.stt_model is None),
{
    if trim_chars(&chars_of(endpoint.as_str())).len() == 0 {
        return Err("Endpoint 不能为空".to_owned());
    }
    if trim_chars(&chars_of(api_key.as_str())).len() == 0 {
        return Err("API Key 不能为空".to_owned());
    }
    if trim_chars(&chars_of(model.as_str())).len() == 0 {
        return Err("Model 不能为空".to_owned());
    }
    Ok(AIProviderConfig {
        endpoint,
        api_key,
        model,
        vision_model,
        image_model,
        image_gen_endpoint: non_blank_exec(image_gen_endpoint),
        image_gen_api_key: non_blank_exec(image_gen_api_key),
        is_default: true,
        stt_endpoint: None,
        stt_api_key: None,
        stt_model: None,
    })
}

/// The system prompt with the weather and the known works appended, each
/// after a blank line, when there are any.
pub open spec fn prompt_with_context(prompt: Seq<char>, weather: Option<Seq<char>>, works: Seq<char>) -> Seq<
    char,
> {
    let p = match weather {
        Some(w) => prompt + "\n\n"@ + w,
        None => prompt,
    };
    if works.len() > 0 {
        p + "\n\n"@ + works
    } else {
        p
    }
}

/// Appends the weather and the known works to the system prompt.
pub fn append_prompt_context(prompt: String, weather: Option<String>, works: &str) -> (r: String)
    ensures
        r@ == prompt_with_context(prompt@, opt_view(weather), works@),
{
    let mut p = prompt;
    match weather {
        Some(w) => {
            p.append("\n\n");
            p.append(w.as_str());
        },
        None => {},
    }
    if !works.is_empty() {
        p.append("\n\n");
        p.append(works);
    }
    p
}

/// The fields of a document summary that the pet is told about, as read
/// from the stored summary JSON: the `one_liner` string; the `characters`
/// array, each entry's `name` and `role` when they are strings; the
/// `themes` array, each entry when it is a string.
pub struct SummaryFields {
    pub one_liner: Option<String>,
    pub characters: Option<Vec<(Option<String>, Option<String>)>>,
    pub themes: Option<Vec<Option<String>>>,
}

/// A character entry as plain values.
pub type CharacterView = (Option<Seq<char>>, Option<Seq<char>>);

/// The summary fields as plain values.
pub type SummaryView = (Option<Seq<char>>, Option<Seq<CharacterView>>, Option<Seq<Option<Seq<char>>>>);

/// The plain values of a character entry.
pub open spec fn character_view(c: (Option<String>, Option<String>)) -> CharacterView {
    (opt_view(c.0), opt_view(c.1))
}

/// The plain values of summary fields.
pub open spec fn summary_view(f: SummaryFields) -> SummaryView {
    (
        opt_view(f.one_liner),
        match f.characters {
            Some(cs) => Some(cs@.map_values(|c: (Option<String>, Option<String>)| character_view(c))),
            None => None,
        },
        match f.themes {
            Some(ts) => Some(ts@.map_values(|t: Option<String>| opt_view(t))),
            None => None,
        },
    )
}

/// The summary fields `serde_json` reads from a stored summary, `None` when
/// it is not JSON.
pub uninterp spec fn summary_fields(json: Seq<char>) -> Option<SummaryView>;

/// Parses a stored summary with `serde_json::from_str::<Value>` and reads
/// its fields; the result is named `summary_fields` of the text (JSON
/// parsing is not written out here).
#[verifier::external_body]
fn parse_summary_fields(json: &str) -> (r: Option<SummaryFields>)
    ensures
        (match r {
            Some(f) => Some(summary_view(f)),
            None => None,
        }) == summary_fields(json@),
{
    let v: serde_json::Value = serde_json::from_str(json).ok()?;
    let text = |x: &serde_json::Value| x.as_str().map(|s| s.to_owned());
    Some(SummaryFields {
        one_liner: text(&v["one_liner"]),
        characters: v["characters"].as_array().map(|a| a.iter().map(|c| (text(&c["name"]), text(&c["role"]))).collect()),
        themes: v["themes"].as_array().map(|a| a.iter().map(|t| text(t)).collect()),
    })
}

/// How a character is named to the pet: its name (`?` when missing), with
/// its role in brackets when it has one.
pub open spec fn character_label(c: CharacterView) -> Seq<char> {
    let name = match c.0 {
        Some(n) => n,
        None => "?"@,
    };
    let role = match c.1 {
        Some(r) => r,
        None => Seq::empty(),
    };
    if role.len() == 0 {
        name
    } else {
        name + "（"@ + role + "）"@
    }
}

/// The themes that are strings, in order.
pub open spec fn string_themes(ts: Seq<Option<Seq<char>>>) -> Seq<Seq<char>>
    decreases ts.len(),
{
    if ts.len() == 0 {
        Seq::empty()
    } else {
        let rest = string_themes(ts.drop_last());
        match ts.last() {
            Some(t) => rest.push(t),
            None => rest,
        }
    }
}

/// The lines that describe a work: its one-line summary when not empty,
/// its characters and its themes when there are any.
pub open spec fn summary_lines(f: SummaryView) -> Seq<Seq<char>> {
    let a = match f.0 {
        Some(o) => if o.len() > 0 {
            seq!["- 概要："@ + o]
        } else {
            Seq::empty()
        },
        None => Seq::empty(),
    };
    let b = match f.1 {
        Some(cs) => if cs.len() > 0 {
            seq!["- 主要角色："@ + join(cs.map_values(|c: CharacterView| character_label(c)), "、"@)]
        } else {
            Seq::empty()
        },
        None => Seq::empty(),
    };
    let c = match f.2 {
        Some(ts) => if ts.len() > 0 {
            seq!["- 核心主题："@ + join(string_themes(ts), "、"@)]
        } else {
            Seq::empty()
        },
        None => Seq::empty(),
    };
    a + b + c
}

/// The paragraph about one document, when its summary can be read and
/// says something.
pub open spec fn document_part(title: Seq<char>, summary_json: Option<Seq<char>>) -> Option<Seq<char>> {
    match summary_json {
        None => None,
        Some(j) => match summary_fields(j) {
            None => None,
            Some(f) => {
                let lines = summary_lines(f);
                if lines.len() > 0 {
                    Some("主人有一部作品《"@ + title + "》：\n"@ + join(lines, "\n"@))
                } else {
                    None
                }
            },
        },
    }
}

/// The paragraphs about the documents, in order.
pub open spec fn document_parts(docs: Seq<crate::chat_history::DocumentKnowledgeRow>) -> Seq<Seq<char>>
    decreases docs.len(),
{
    if docs.len() == 0 {
        Seq::empty()
    } else {
        let rest = document_parts(docs.drop_last());
        let d = docs.last();
        match document_part(d.title@, opt_view(d.summary_json)) {
            Some(p) => rest.push(p),
            None => rest,
        }
    }
}

/// The note about the owner's works added to the system prompt: nothing
/// when no document says anything.
pub open spec fn document_context_text(docs: Seq<crate::chat_history::DocumentKnowledgeRow>) -> Seq<char> {
    let parts = document_parts(docs);
    if parts.len() == 0 {
        Seq::empty()
    } else {
        "## 你了解的作品\n"@ + join(parts, "\n\n"@)
            + "\n\n（注意：如果主人没有主动提起作品相关内容，不要突兀地评价这些作品。当主人聊到时，可以自然地结合你对作品的了解来回应。）"@
    }
}

fn character_label_exec(c: &(Option<String>, Option<String>)) -> (r: String)
    ensures
        r@ == character_label(character_view(*c)),
{
    let name = match &c.0 {
        Some(n) => n.clone(),
        None => "?".to_owned(),
    };
    match &c.1 {
        Some(role) => if role.as_str().is_empty() {
            name
        } else {
            let mut r = name;
            r.append("（");
            r.append(role.as_str());
            r.append("）");
            r
        },
        None => {
            proof {
                reveal_strlit("");
            }
            name
        },
    }
}

fn summary_lines_exec(f: &SummaryFields) -> (r: Vec<String>)
    ensures
        string_views(r@) == summary_lines(summary_view(*f)),
{
    let mut lines: Vec<String> = Vec::new();
    match &f.one_liner {
        Some(o) => if !o.as_str().is_empty() {
            let mut l = "- 概要：".to_owned();
            l.append(o.as_str());
            lines.push(l);
        },
        None => {},
    }
    let ghost a = string_views(lines@);
    match &f.characters {
        Some(cs) => if cs.len() > 0 {
            let mut labels: Vec<String> = Vec::new();
            let mut i: usize = 0;
            while i < cs.len()
                invariant
                    i <= cs@.len(),
                    string_views(labels@) == cs@.take(i as int).map_values(
                        |c: (Option<String>, Option<String>)| character_label(character_view(c)),
                    ),
                decreases cs@.len() - i,
            {
                let l = character_label_exec(&cs[i]);
                let ghost lv = l@;
                let ghost before = labels@;
                labels.push(l);
                assert(lv == character_label(character_view(cs@[i as int])));
                assert(string_views(labels@) =~= string_views(before).push(lv));
                assert(cs@.take(i + 1).map_values(
                    |c: (Option<String>, Option<String>)| character_label(character_view(c)),
                ) =~= cs@.take(i as int).map_values(
                    |c: (Option<String>, Option<String>)| character_label(character_view(c)),
                ).push(lv));
                assert(string_views(labels@) =~= cs@.take(i + 1).map_values(
                    |c: (Option<String>, Option<String>)| character_label(character_view(c)),
                ));
                i = i + 1;
            }
            assert(cs@.take(cs@.len() as int) =~= cs@);
            assert(cs@.map_values(|c: (Option<String>, Option<String>)| character_label(character_view(c)))
                =~= cs@.map_values(|c: (Option<String>, Option<String>)| character_view(c)).map_values(
                |c: CharacterView| character_label(c),
            ));
            let mut l = "- 主要角色：".to_owned();
            l.append(crate::text::join_strings(&labels, "、").as_str());
            lines.push(l);
        },
        None => {},
    }
    let ghost b = string_views(lines@);
    match &f.themes {
        Some(ts) => if ts.len() > 0 {
            let mut found: Vec<String> = Vec::new();
            let mut i: usize = 0;
            while i < ts.len()
                invariant
                    i <= ts@.len(),
                    string_views(found@) == string_themes(
                        ts@.take(i as int).map_values(|t: Option<String>| opt_view(t)),
                    ),
                decreases ts@.len() - i,
            {
                proof {
                    assert(ts@.take(i + 1).map_values(|t: Option<String>| opt_view(t)).drop_last()
                        =~= ts@.take(i as int).map_values(|t: Option<String>| opt_view(t)));
                }
                match &ts[i] {
                    Some(t) => {
                        found.push(t.clone());
                    },
                    None => {},
                }
                assert(string_views(found@) =~= string_themes(
                    ts@.take(i + 1).map_values(|t: Option<String>| opt_view(t)),
                ));
                i = i + 1;
            }
            assert(ts@.take(ts@.len() as int) =~= ts@);
            let mut l = "- 核心主题：".to_owned();
            l.append(crate::text::join_strings(&found, "、").as_str());
            lines.push(l);
        },
        None => {},
    }
    assert(string_views(lines@) =~= summary_lines(summary_view(*f)));
    lines
}

/// The note about the owner's works added to the system prompt.
pub fn build_document_context(docs: &Vec<crate::chat_history::DocumentKnowledgeRow>) -> (r: String)
    ensures
        r@ == document_context_text(docs@),
{
    let mut parts: Vec<String> = Vec::new();
    let mut i: usize = 0;
    while i < docs.len()
        invariant
            i <= docs@.len(),
            string_views(parts@) == document_parts(docs@.take(i as int)),
        decreases docs@.len() - i,
    {
        let d = &docs[i];
        proof {
            assert(docs@.take(i + 1).drop_last() =~= docs@.take(i as int));
        }
        match &d.summary_json {
            Some(j) => match parse_summary_fields(j.as_str()) {
                Some(f) => {
                    let lines = summary_lines_exec(&f);
                    if lines.len() > 0 {
                        let mut p = "主人有一部作品《".to_owned();
                        p.append(d.title.as_str());
                        p.append("》：\n");
                        p.append(crate::text::join_strings(&lines, "\n").as_str());
                        parts.push(p);
                    }
                },
                None => {},
            },
            None => {},
        }
        assert(string_views(parts@) =~= document_parts(docs@.take(i + 1)));
        i = i + 1;
    }
    assert(docs@.take(docs@.len() as int) =~= docs@);
    if parts.len() == 0 {
        return String::new();
    }
    let mut r = "## 你了解的作品\n".to_owned();
    r.append(crate::text::join_strings(&parts, "\n\n").as_str());
    r.append("\n\n（注意：如果主人没有主动提起作品相关内容，不要突兀地评价这些作品。当主人聊到时，可以自然地结合你对作品的了解来回应。）");
    r
}

/// The day's fragments of memory a diary is written from: the short-term
/// memories, then each emotional event that has a description, as
/// `[情感事件: type] description`.
pub open spec fn diary_fragments_of(
    short_term: Seq<Seq<char>>,
    events: Seq<(Seq<char>, Option<Seq<char>>)>,
) -> Seq<Seq<char>>
    decreases events.len(),
{
    if events.len() == 0 {
        short_term
    } else {
        let acc = diary_fragments_of(short_term, events.drop_last());
        let (kind, description) = events.last();
        match description {
            Some(d) => acc.push("[情感事件: "@ + kind + "] "@ + d),
            None => acc,
        }
    }
}

/// The day's fragments of memory a diary is written from; `events` holds
/// each emotional event's type and description.
pub fn diary_fragments(short_term: &Vec<String>, events: &Vec<(String, Option<String>)>) -> (r: Vec<
    String,
>)
    ensures
        string_views(r@) == diary_fragments_of(
            string_views(short_term@),
            events@.map_values(|e: (String, Option<String>)| (e.0@, opt_view(e.1))),
        ),
{
    let ghost ev = events@.map_values(|e: (String, Option<String>)| (e.0@, opt_view(e.1)));
    let mut acc: Vec<String> = Vec::new();
    let mut i: usize = 0;
    while i < short_term.len()
        invariant
            i <= short_term@.len(),
            string_views(acc@) == string_views(short_term@).take(i as int),
        decreases short_term@.len() - i,
    {
        let ghost before = acc@;
        acc.push(short_term[i].clone());
        assert(string_views(acc@) =~= string_views(short_term@).take(i + 1)) by {
            assert(string_views(acc@) =~= string_views(before).push(short_term@[i as int]@));
        }
        i = i + 1;
    }
    assert(string_views(short_term@).take(short_term@.len() as int) =~= string_views(short_term@));
    let mut j: usize = 0;
    assert(ev.take(0) =~= Seq::<(Seq<char>, Option<Seq<char>>)>::empty());
    while j < events.len()
        invariant
            j <= events@.len(),
            ev == events@.map_values(|e: (String, Option<String>)| (e.0@, opt_view(e.1))),
            string_views(acc@) == diary_fragments_of(string_views(short_term@), ev.take(j as int)),
        decreases events@.len() - j,
    {
        proof {
            assert(ev.take(j + 1).drop_last() =~= ev.take(j as int));
            assert(ev.take(j + 1).last() == (events@[j as int].0@, opt_view(events@[j as int].1)));
        }
        match &events[j].1 {
            Some(d) => {
                let mut line = "[情感事件: ".to_owned();
                line.append(events[j].0.as_str());
                line.append("] ");
                line.append(d.as_str());
                let ghost before = string_views(acc@);
                acc.push(line);
                assert(string_views(acc@) =~= before.push(
                    "[情感事件: "@ + events@[j as int].0@ + "] "@ + d@,
                ));
            },
            None => {},
        }
        j = j + 1;
    }
    assert(ev.take(events@.len() as int) =~= ev);
    acc
}

/// The request for the day's diary: the pet's name, its mood, and the
/// day's fragments of memory numbered from 1.
pub open spec fn diary_prompt_text(name: Seq<char>, mood: Seq<char>, fragments: Seq<Seq<char>>) -> Seq<
    char,
> {
    "你是"@ + name
        + "，一个桌宠精灵。请根据以下今天的记忆碎片，以宠物口吻写一篇今天的简短日记（~100字中文）。\n今天你的整体心情："@
        + mood + "。\n风格：第一人称、私密、像对自己说话。可以提到主人、提到情绪变化。\n\n今天的记忆：\n"@
        + crate::ghost_commands::numbered_lines(fragments, "（今天还没有任何记忆）"@)
}

/// The request for the day's diary.
pub fn diary_prompt(name: &str, mood: &str, fragments: &Vec<String>) -> (s: String)
    requires
        fragments@.len() < u64::MAX,
    ensures
        s@ == diary_prompt_text(name@, mood@, string_views(fragments@)),
{
    let mut s = "你是".to_owned();
    s.append(name);
    s.append(
        "，一个桌宠精灵。请根据以下今天的记忆碎片，以宠物口吻写一篇今天的简短日记（~100字中文）。\n今天你的整体心情：",
    );
    s.append(mood);
    s.append("。\n风格：第一人称、私密、像对自己说话。可以提到主人、提到情绪变化。\n\n今天的记忆：\n");
    s.append(crate::ghost_commands::numbered_list(fragments, "（今天还没有任何记忆）").as_str());
    s
}

} // verus!
