//! The sentiment analysis of a chat turn: the request that asks the model
//! what the exchange showed of the owner, and the message for a reply that
//! cannot be read.
use vstd::prelude::*;
use crate::ai_service::{truncate_str, truncated};

verus! {

/// Analyses the feelings and the owner's traits shown in a chat turn.
pub struct SentimentAnalyzer;

/// The instructions of the sentiment analysis, for a pet called `name`.
pub open spec fn sentiment_system_text(name: Seq<char>) -> Seq<char> {
    "你是"@ + name + "内部的情感分析系统。分析刚才的对话，提取主人表现出的性格特征和情感事件。你必须严格按JSON格式回复，不要包含任何其他文字。JSON格式如下：\n{\n\"event_type\": \"事件类型之一\",\n\"intensity\": 0.0到1.0之间的强度值,\n\"impression\": {\n\"openness_delta\": 数值,\n\"conscientiousness_delta\": 数值,\n\"extraversion_delta\": 数值,\n\"agreeableness_delta\": 数值,\n\"neuroticism_delta\": 数值,\n\"creativity_delta\": 数值,\n\"snippet\": \"一句话印象总结\"\n},\n\"love_hate_hint\": -5到5之间的情感倾向值\n}\n\n事件类型可选值：\n- UserInitiatedChat: 用户主动发起聊天\n- UserCaredAboutPet: 用户表达了对桌宠的关心\n- UserPraisedPet: 用户夸奖了桌宠\n- UserSharedPersonalStory: 用户分享了个人经历\n- NormalChat: 普通闲聊\n- UserGotAngry: 用户生气了\n- UserDismissedPet: 用户敷衍了桌宠\n\n维度delta规则：\n- 每个delta范围 -3.0 到 +3.0\n- 正值表示该维度表现高，负值表示表现低\n- 例如：用户分享了创意想法 → creativity_delta: 1~2\n- 用户态度恶劣 → agreeableness_delta: -2~-3\n\nlove_hate_hint 规则：\n- 综合这段对话的情感倾向\n- 正值表示对话让桌宠开心，负值表示不开心\n- 普通聊天约 0~1，关心夸奖约 2~5，生气骂人约 -3~-5"@
}

/// The exchange handed to the sentiment analysis.
pub open spec fn sentiment_user_text(user_message: Seq<char>, pet_response: Seq<char>, name: Seq<char>) -> Seq<char> {
    "分析以下对话：\n\n主人说："@ + user_message + "\n\n"@ + name + "回复："@ + pet_response
        + "\n\n请输出JSON分析结果。"@
}

/// The message for an analysis reply that is not JSON: the parser's error
/// and the start of the reply.
pub open spec fn sentiment_parse_error_text(error: Seq<char>, reply: Seq<char>) -> Seq<char> {
    "情感分析JSON解析失败: "@ + error + " (原文: "@ + truncated(reply, 200) + ")"@
}

impl SentimentAnalyzer {
    /// The system prompt and the user message of the analysis of a turn.
    pub fn prompts(user_message: &str, pet_response: &str, pet_name: &str) -> (r: (String, String))
        ensures
            r.0@ == sentiment_system_text(pet_name@),
            r.1@ == sentiment_user_text(user_message@, pet_response@, pet_name@),
    {
        let mut system = "你是".to_owned();
        system.append(pet_name);
        system.append("内部的情感分析系统。分析刚才的对话，提取主人表现出的性格特征和情感事件。你必须严格按JSON格式回复，不要包含任何其他文字。JSON格式如下：\n{\n\"event_type\": \"事件类型之一\",\n\"intensity\": 0.0到1.0之间的强度值,\n\"impression\": {\n\"openness_delta\": 数值,\n\"conscientiousness_delta\": 数值,\n\"extraversion_delta\": 数值,\n\"agreeableness_delta\": 数值,\n\"neuroticism_delta\": 数值,\n\"creativity_delta\": 数值,\n\"snippet\": \"一句话印象总结\"\n},\n\"love_hate_hint\": -5到5之间的情感倾向值\n}\n\n事件类型可选值：\n- UserInitiatedChat: 用户主动发起聊天\n- UserCaredAboutPet: 用户表达了对桌宠的关心\n- UserPraisedPet: 用户夸奖了桌宠\n- UserSharedPersonalStory: 用户分享了个人经历\n- NormalChat: 普通闲聊\n- UserGotAngry: 用户生气了\n- UserDismissedPet: 用户敷衍了桌宠\n\n维度delta规则：\n- 每个delta范围 -3.0 到 +3.0\n- 正值表示该维度表现高，负值表示表现低\n- 例如：用户分享了创意想法 → creativity_delta: 1~2\n- 用户态度恶劣 → agreeableness_delta: -2~-3\n\nlove_hate_hint 规则：\n- 综合这段对话的情感倾向\n- 正值表示对话让桌宠开心，负值表示不开心\n- 普通聊天约 0~1，关心夸奖约 2~5，生气骂人约 -3~-5");
        let mut user = "分析以下对话：\n\n主人说：".to_owned();
        user.append(user_message);
        user.append("\n\n");
        user.append(pet_name);
        user.append("回复：");
        user.append(pet_response);
        user.append("\n\n请输出JSON分析结果。");
        (system, user)
    }

    /// The message for an analysis reply that is not JSON.
    pub fn parse_error_message(error: &str, reply: &str) -> (s: String)
        ensures
            s@ == sentiment_parse_error_text(error@, reply@),
    {
        let mut s = "情感分析JSON解析失败: ".to_owned();
        s.append(error);
        s.append(" (原文: ");
        s.append(truncate_str(reply, 200).as_str());
        s.append(")");
        s
    }

    /// The event type named by the analysis, `NormalChat` when it names
    /// none.
    pub fn event_type_or_default(event_type: Option<&str>) -> (s: String)
        ensures
            s@ == match event_type {
                Some(t) => t@,
                None => "NormalChat"@,
            },
    {
        match event_type {
            Some(t) => t.to_owned(),
            None => "NormalChat".to_owned(),
        }
    }

    /// The impression the analysis gave in words, `None` when it is empty
    /// or missing.
    pub fn snippet_or_none(snippet: Option<&str>) -> (r: Option<String>)
        ensures
            match snippet {
                Some(t) => if t@.len() > 0 {
                    r matches Some(u) && u@ == t@
                } else {
                    r is None
                },
                None => r is None,
            },
    {
        match snippet {
            Some(t) => if t.is_empty() {
                None
            } else {
                Some(t.to_owned())
            },
            None => None,
        }
    }
}

} // verus!
