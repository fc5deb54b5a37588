//! Compressing short-term memories into long-term ones and blurring core
//! memories after a transfer: the prompts sent to the model and the
//! reading of its replies.
use vstd::prelude::*;
use crate::json_text::{enclosed, extract_json_array};
use crate::text::{decimal, decimal_chars, join, join_strings, string_of, string_views};

verus! {

broadcast use vstd::string::group_string_axioms;

/// Compresses and blurs memories with the help of the model.
pub struct MemoryCompressor;

/// What one compression did.
#[derive(Clone, Copy, Debug)]
pub struct CompressResult {
    pub compressed: bool,
    pub new_ltm_count: usize,
    pub new_experience_count: usize,
}

/// How strongly memories are blurred after the `generation`-th transfer.
pub open spec fn blur_level_text(generation: u32) -> Seq<char> {
    if generation == 1 {
        "轻微模糊——将某些具体细节改为不太确定"@
    } else if generation == 2 {
        "中度模糊——将大部分细节模糊化，加入'好像''似乎''大概是'这类词"@
    } else if generation == 3 {
        "明显模糊——将具体事实变成模糊的印象，加入'记不太清了'的感觉"@
    } else {
        "严重模糊——事实已经模糊不清，只剩下模糊的感觉和情绪基调"@
    }
}

/// How strongly memories are blurred after the `generation`-th transfer.
pub fn blur_level(generation: u32) -> (s: &'static str)
    ensures
        s@ == blur_level_text(generation),
{
    if generation == 1 {
        "轻微模糊——将某些具体细节改为不太确定"
    } else if generation == 2 {
        "中度模糊——将大部分细节模糊化，加入'好像''似乎''大概是'这类词"
    } else if generation == 3 {
        "明显模糊——将具体事实变成模糊的印象，加入'记不太清了'的感觉"
    } else {
        "严重模糊——事实已经模糊不清，只剩下模糊的感觉和情绪基调"
    }
}

/// The summaries numbered from 1, `n. summary`.
pub open spec fn numbered_summaries(summaries: Seq<(String, String)>) -> Seq<Seq<char>> {
    Seq::new(summaries.len(), |i: int| decimal((i + 1) as nat) + ". "@ + summaries[i].1@)
}

/// The request that asks the model to blur the core memories after the
/// `generation`-th transfer.
pub open spec fn blur_prompt_text(generation: u32, summaries: Seq<(String, String)>) -> Seq<char> {
    "你需要模拟一个生命体经历第"@ + decimal(generation as nat) + "次灵魂传送后，核心记忆逐渐模糊化的过程。\n模糊程度要求："@
        + blur_level_text(generation)
        + "\n\n以下是需要处理的记忆摘要列表，请为每一条生成模糊化后的版本。\n- 保持记忆的核心事件，但让细节变得模糊\n- 保留情感基调（开心/伤心/感动等），但弱化具体时间、地点、数字\n- 每条只需输出一句话\n\n记忆列表：\n"@
        + join(numbered_summaries(summaries), "\n"@)
        + "\n\n严格按JSON数组回复，不要其他文字：\n[{\"index\": 1, \"blurred\": \"模糊化后的文本\"}, ...]"@
}

/// The request that asks the model to blur the core memories (given as id
/// and summary) after the `generation`-th transfer.
pub fn blur_prompt(generation: u32, summaries: &Vec<(String, String)>) -> (s: String)
    requires
        summaries@.len() < u64::MAX,
    ensures
        s@ == blur_prompt_text(generation, summaries@),
{
    let mut lines: Vec<String> = Vec::new();
    let mut i: usize = 0;
    while i < summaries.len()
        invariant
            i <= summaries@.len(),
            summaries@.len() < u64::MAX,
            string_views(lines@) == numbered_summaries(summaries@).take(i as int),
        decreases summaries@.len() - i,
    {
        let mut line = string_of(&decimal_chars((i + 1) as u64));
        line.append(". ");
        line.append(summaries[i].1.as_str());
        let ghost before = lines@;
        lines.push(line);
        assert(string_views(lines@) =~= numbered_summaries(summaries@).take(i + 1)) by {
            assert(string_views(lines@) =~= string_views(before).push(
                numbered_summaries(summaries@)[i as int],
            ));
        }
        i = i + 1;
    }
    assert(numbered_summaries(summaries@).take(summaries@.len() as int) =~= numbered_summaries(
        summaries@,
    ));
    let mut s = "你需要模拟一个生命体经历第".to_owned();
    s.append(string_of(&decimal_chars(generation as u64)).as_str());
    s.append("次灵魂传送后，核心记忆逐渐模糊化的过程。\n模糊程度要求：");
    s.append(blur_level(generation));
    s.append(
        "\n\n以下是需要处理的记忆摘要列表，请为每一条生成模糊化后的版本。\n- 保持记忆的核心事件，但让细节变得模糊\n- 保留情感基调（开心/伤心/感动等），但弱化具体时间、地点、数字\n- 每条只需输出一句话\n\n记忆列表：\n",
    );
    s.append(join_strings(&lines, "\n").as_str());
    s.append(
        "\n\n严格按JSON数组回复，不要其他文字：\n[{\"index\": 1, \"blurred\": \"模糊化后的文本\"}, ...]",
    );
    s
}

/// The entries of a blurring reply as `serde_json` reads them, when it is a
/// JSON array: each entry's `index` when it is an unsigned integer, and its
/// `blurred` text when it is a string.
pub uninterp spec fn blur_entries(json: Seq<char>) -> Option<Seq<(Option<u64>, Option<Seq<char>>)>>;

/// Parses a blurring reply with `serde_json::from_str::<Vec<Value>>` and
/// reads each entry's `index` and `blurred` fields; the result is named
/// `blur_entries` of the text (JSON parsing is not written out here).
#[verifier::external_body]
fn parse_blur_entries(json: &str) -> (r: Option<Vec<(Option<u64>, Option<String>)>>)
    ensures
        (match r {
            Some(v) => Some(entry_views(v@)),
            None => None,
        }) == blur_entries(json@),
{
    let items: Vec<serde_json::Value> = serde_json::from_str(json).ok()?;
    Some(items.iter().map(|v| (v["index"].as_u64(), v["blurred"].as_str().map(|s| s.to_owned()))).collect())
}

/// The blurred summaries that a reply's entries give, as (id, text): an
/// entry counts when it has a text and an index from 1 to the number of
/// summaries (a missing index counts as 0), and takes the id of that
/// summary.
pub open spec fn blurred_pairs(
    entries: Seq<(Option<u64>, Option<Seq<char>>)>,
    summaries: Seq<(String, String)>,
) -> Seq<(Seq<char>, Seq<char>)>
    decreases entries.len(),
{
    if entries.len() == 0 {
        Seq::empty()
    } else {
        let rest = blurred_pairs(entries.drop_last(), summaries);
        let (idx, text) = entries.last();
        let index: int = match idx {
            Some(i) => i as int,
            None => 0,
        };
        match text {
            Some(t) => if 0 < index <= summaries.len() {
                rest.push((summaries[index - 1].0@, t))
            } else {
                rest
            },
            None => rest,
        }
    }
}

/// The blurred summaries in a reply: an empty list when the reply holds no
/// JSON array.
pub open spec fn blur_response_pairs(response: Seq<char>, summaries: Seq<(String, String)>) -> Seq<
    (Seq<char>, Seq<char>),
> {
    match blur_entries(enclosed(response, '[', ']')) {
        Some(entries) => blurred_pairs(entries, summaries),
        None => Seq::empty(),
    }
}

/// The views of (id, text) pairs.
pub open spec fn pair_views(v: Seq<(String, String)>) -> Seq<(Seq<char>, Seq<char>)> {
    v.map_values(|p: (String, String)| (p.0@, p.1@))
}

/// The view of the entries read from a blurring reply.
pub open spec fn entry_views(items: Seq<(Option<u64>, Option<String>)>) -> Seq<(Option<u64>, Option<Seq<char>>)> {
    items.map_values(
        |e: (Option<u64>, Option<String>)|
            (
                e.0,
                match e.1 {
                    Some(t) => Some(t@),
                    None => None,
                },
            ),
    )
}

/// Reads the blurred summaries from the model's reply, mapping each back
/// to the id of the summary it replaces; entries whose index is out of
/// range are dropped.
pub fn parse_blur_response(response: &str, summaries: &Vec<(String, String)>) -> (r: Vec<
    (String, String),
>)
    ensures
        pair_views(r@) == blur_response_pairs(response@, summaries@),
{
    let json = extract_json_array(response);
    let parsed = parse_blur_entries(json);
    match parsed {
        None => {
            let results: Vec<(String, String)> = Vec::new();
            assert(pair_views(results@) =~= Seq::<(Seq<char>, Seq<char>)>::empty());
            results
        },
        Some(items) => {
            assert(Some(entry_views(items@)) == blur_entries(json@));
            blurred_summaries(&items, summaries)
        },
    }
}

/// The blurred summaries that the entries read from a reply give, as (id,
/// text), each entry's `index` and `blurred` text as read (`None` where not
/// an unsigned integer or not a string).
pub fn blurred_summaries(items: &Vec<(Option<u64>, Option<String>)>, summaries: &Vec<(String, String)>) -> (r: Vec<
    (String, String),
>)
    ensures
        pair_views(r@) == blurred_pairs(entry_views(items@), summaries@),
{
    let ghost entries = entry_views(items@);
    let mut results: Vec<(String, String)> = Vec::new();
    let mut i: usize = 0;
    while i < items.len()
        invariant
            i <= items@.len(),
            entries == entry_views(items@),
            entries.len() == items@.len(),
            pair_views(results@) == blurred_pairs(entries.take(i as int), summaries@),
        decreases items@.len() - i,
    {
        proof {
            assert(entries.take(i + 1).drop_last() =~= entries.take(i as int));
            assert(entries.take(i + 1).last() == entries[i as int]);
        }
        let index: u64 = match items[i].0 {
            Some(x) => x,
            None => 0,
        };
        match &items[i].1 {
            Some(blurred) => {
                if index > 0 && index <= summaries.len() as u64 {
                    let k = (index - 1) as usize;
                    let ghost before = results@;
                    results.push((summaries[k].0.clone(), blurred.clone()));
                    assert(pair_views(results@) =~= pair_views(before).push(
                        (summaries@[k as int].0@, blurred@),
                    ));
                }
            },
            None => {},
        }
        i = i + 1;
    }
    assert(entries.take(items@.len() as int) =~= entries);
    results
}

/// The question put to the model to find a skill that can be carried over
/// in a memory.
pub open spec fn experience_prompt_text(summary: Seq<char>) -> Seq<char> {
    "以下是一段记忆：\n"@ + summary
        + "\n\n是否包含可迁移知识或技能？如有用JSON回复：{\"found\": true, \"name\": \"名称\", \"summary\": \"描述\", \"source\": \"来源\", \"proficiency\": 0.3}\n如无：{\"found\": false}"@
}

/// The question put to the model to find a skill in a memory.
pub fn experience_prompt(summary: &str) -> (p: String)
    ensures
        p@ == experience_prompt_text(summary@),
{
    let mut p = "以下是一段记忆：\n".to_owned();
    p.append(summary);
    p.append(
        "\n\n是否包含可迁移知识或技能？如有用JSON回复：{\"found\": true, \"name\": \"名称\", \"summary\": \"描述\", \"source\": \"来源\", \"proficiency\": 0.3}\n如无：{\"found\": false}",
    );
    p
}

/// The long-term memory each of `count` extracted skills came from: the
/// one saved at the same position, none past the last saved memory.
pub fn experience_source_ids(ltm_ids: &Vec<String>, count: usize) -> (r: Vec<Option<String>>)
    ensures
        r@.len() == count,
        forall|i: int|
            0 <= i < count ==> crate::ai_service::opt_str_view(#[trigger] r@[i]) == (if i
                < ltm_ids@.len() {
                Some(ltm_ids@[i]@)
            } else {
                None
            }),
{
    let mut r: Vec<Option<String>> = Vec::new();
    let mut i: usize = 0;
    while i < count
        invariant
            i <= count,
            r@.len() == i,
            forall|k: int|
                0 <= k < i ==> crate::ai_service::opt_str_view(#[trigger] r@[k]) == (if k
                    < ltm_ids@.len() {
                    Some(ltm_ids@[k]@)
                } else {
                    None
                }),
        decreases count - i,
    {
        if i < ltm_ids.len() {
            r.push(Some(ltm_ids[i].clone()));
        } else {
            r.push(None);
        }
        i = i + 1;
    }
    r
}

} // verus!
