//! Summaries of imported works: the request sent to the model, cut to a
//! length the model accepts, and the message for a summary that cannot be
//! read.
use vstd::prelude::*;
use crate::ai_service::{truncate_str, truncated};
use crate::text::{chars_of, decimal, decimal_chars, slice_chars, string_of};

verus! {

/// A structured summary of a work.
pub struct DocumentSummary {
    pub one_liner: String,
    pub genres: Vec<String>,
    pub characters: Vec<CharacterInfo>,
    pub plot_arc: String,
    pub themes: Vec<String>,
}

/// A character of a summarized work.
pub struct CharacterInfo {
    pub name: String,
    pub role: String,
    pub traits: String,
}

/// The most characters of a work sent to be summarized.
pub open spec fn max_summary_chars() -> nat {
    50000
}

/// The instructions for summarizing the work called `title`.
pub open spec fn summary_system_text(title: Seq<char>) -> Seq<char> {
    "你是一个文学分析助手。请阅读以下作品全文，生成一份结构化的摘要。\n\n要求：\n1. 用中文回复\n2. 只返回 JSON，不要任何其他文字\n3. JSON 格式如下：\n{\n  \"one_liner\": \"一句话概括故事内容（50字以内）\",\n  \"genres\": [\"题材标签1\", \"题材标签2\"],\n  \"characters\": [\n    { \"name\": \"角色名\", \"role\": \"身份/定位\", \"traits\": \"核心性格特征（20字以内）\" }\n  ],\n  \"plot_arc\": \"主要情节发展脉络（200字以内）\",\n  \"themes\": [\"核心主题1\", \"核心主题2\"]\n}\n\n作品标题：《"@ + title + "》"@
}

/// The text of the work sent: all of it, or its first 50000 characters
/// with a note that the rest was cut.
pub open spec fn summary_user_text(full_text: Seq<char>) -> Seq<char> {
    let (note, body) = if full_text.len() > max_summary_chars() {
        (
            "（注意：原文过长，已截取前"@ + decimal(max_summary_chars()) + "字，可能丢失后文内容）\n\n"@,
            full_text.take(max_summary_chars() as int),
        )
    } else {
        (Seq::empty(), full_text)
    };
    "请分析以下作品的全文内容，并返回结构化的摘要JSON：\n\n"@ + note + body
        + "\n\n---\n请只返回JSON，不要其他内容。"@
}

/// The system prompt and the user message that ask for a summary of a
/// work.
pub fn summary_request(title: &str, full_text: &str) -> (r: (String, String))
    ensures
        r.0@ == summary_system_text(title@),
        r.1@ == summary_user_text(full_text@),
{
    let mut system = "你是一个文学分析助手。请阅读以下作品全文，生成一份结构化的摘要。\n\n要求：\n1. 用中文回复\n2. 只返回 JSON，不要任何其他文字\n3. JSON 格式如下：\n{\n  \"one_liner\": \"一句话概括故事内容（50字以内）\",\n  \"genres\": [\"题材标签1\", \"题材标签2\"],\n  \"characters\": [\n    { \"name\": \"角色名\", \"role\": \"身份/定位\", \"traits\": \"核心性格特征（20字以内）\" }\n  ],\n  \"plot_arc\": \"主要情节发展脉络（200字以内）\",\n  \"themes\": [\"核心主题1\", \"核心主题2\"]\n}\n\n作品标题：《".to_owned();
    system.append(title);
    system.append("》");
    let cs = chars_of(full_text);
    let mut user = "请分析以下作品的全文内容，并返回结构化的摘要JSON：\n\n".to_owned();
    if cs.len() > 50000 {
        user.append("（注意：原文过长，已截取前");
        user.append(string_of(&decimal_chars(50000)).as_str());
        user.append("字，可能丢失后文内容）\n\n");
        let head = slice_chars(&cs, 0, 50000);
        user.append(string_of(&head).as_str());
    } else {
        user.append(full_text);
    }
    user.append("\n\n---\n请只返回JSON，不要其他内容。");
    (system, user)
}

/// The message for a summary that cannot be read: the parser's error and
/// the start of the reply.
pub open spec fn summary_error_text(error: Seq<char>, response: Seq<char>) -> Seq<char> {
    "摘要JSON解析失败: "@ + error + "，原始响应: "@ + truncated(response, 300)
}

/// The message for a summary that cannot be read.
pub fn summary_error_message(error: &str, response: &str) -> (s: String)
    ensures
        s@ == summary_error_text(error@, response@),
{
    let mut s = "摘要JSON解析失败: ".to_owned();
    s.append(error);
    s.append("，原始响应: ");
    s.append(truncate_str(response, 300).as_str());
    s
}

} // verus!
