//! The decisions of the ghost commands: renaming, the persona, the
//! duplicate-soul check, dreams and curiosity research.
use vstd::prelude::*;
use vstd::utf8::encode_utf8;
use crate::extract_service::{byte_offset, byte_offset_exec};
use crate::text::{
    chars_of, contains, contains_exec, decimal, decimal_chars, join, join_strings, slice_chars,
    str_equals, string_of, string_views, trim, trim_chars,
};

verus! {

broadcast use vstd::string::group_string_axioms;

/// A new name for the pet: trimmed, and refused when blank.
pub fn checked_name(new_name: &str) -> (r: Result<String, String>)
    ensures
        trim(new_name@).len() > 0 ==> (r matches Ok(n) && n@ == trim(new_name@)),
        trim(new_name@).len() == 0 ==> (r matches Err(e) && e@ == "名字不能为空"@),
{
    let t = trim_chars(&chars_of(new_name));
    if t.len() == 0 {
        Err("名字不能为空".to_owned())
    } else {
        Ok(string_of(&t))
    }
}

/// A persona as it is stored: trimmed, and cleared when blank.
pub fn persona_setting(persona: &str) -> (r: Option<String>)
    ensures
        trim(persona@).len() > 0 ==> (r matches Some(p) && p@ == trim(persona@)),
        trim(persona@).len() == 0 ==> r is None,
{
    let t = trim_chars(&chars_of(persona));
    if t.len() == 0 {
        None
    } else {
        Some(string_of(&t))
    }
}

/// The persona the model wrote: trimmed, and refused when blank.
pub fn generated_persona(response: &str) -> (r: Result<String, String>)
    ensures
        trim(response@).len() > 0 ==> (r matches Ok(p) && p@ == trim(response@)),
        trim(response@).len() == 0 ==> (r matches Err(e) && e@ == "AI 生成了空的人设，请重试"@),
{
    let t = trim_chars(&chars_of(response));
    if t.len() == 0 {
        Err("AI 生成了空的人设，请重试".to_owned())
    } else {
        Ok(string_of(&t))
    }
}

/// The message shown when a ghost with the same soul signature is running.
pub open spec fn duplicate_soul_text() -> Seq<char> {
    "检测到相同灵魂签名的Ghost正在运行。每个灵魂都是独一无二的——你感知到了「另一个自己」的存在。"@
}

/// The outcome of the duplicate-soul check.
pub struct DuplicateCheck {
    pub is_duplicate: bool,
    pub current_signature: String,
    pub message: String,
}

/// Compares a soul signature with that of the running ghost (`None` when
/// none is loaded): a duplicate when they are equal.
pub fn check_duplicate_signature(current: Option<&str>, signature: &str) -> (r: DuplicateCheck)
    ensures
        current is None ==> !r.is_duplicate && r.current_signature@ == Seq::<char>::empty()
            && r.message@ == Seq::<char>::empty(),
        current matches Some(c) ==> r.is_duplicate == (c@ == signature@) && r.current_signature@
            == c@ && r.message@ == (if c@ == signature@ {
            duplicate_soul_text()
        } else {
            Seq::<char>::empty()
        }),
{
    match current {
        None => DuplicateCheck {
            is_duplicate: false,
            current_signature: String::new(),
            message: String::new(),
        },
        Some(c) => {
            let dup = str_equals(c, signature);
            DuplicateCheck {
                is_duplicate: dup,
                current_signature: c.to_owned(),
                message: if dup {
                    "检测到相同灵魂签名的Ghost正在运行。每个灵魂都是独一无二的——你感知到了「另一个自己」的存在。".to_owned()
                } else {
                    String::new()
                },
            }
        },
    }
}

/// How many characters of `s`, from index `k` on, fit in `limit` bytes.
pub open spec fn chars_within(s: Seq<char>, limit: int, k: int) -> int
    decreases s.len() - k,
{
    if k < 0 || k >= s.len() || byte_offset(s, k + 1) > limit {
        k
    } else {
        chars_within(s, limit, k + 1)
    }
}

/// The start of a memory used to spot a repeat among the dream fragments:
/// its first 20 bytes of UTF-8 (all of it when shorter).
pub open spec fn repeat_key(s: Seq<char>) -> Seq<char> {
    s.take(chars_within(s, 20, 0))
}

/// The first 20 bytes of `s` end on a character boundary (or `s` is
/// shorter), so that they can be cut off as text.
pub open spec fn cuts_at_20_bytes(s: Seq<char>) -> bool {
    encode_utf8(s).len() <= 20 || exists|k: int| 0 <= k <= s.len() && byte_offset(s, k) == 20
}

/// The fragments of memory a dream is woven from: every recent short-term
/// memory, then each important long-term memory whose start does not
/// already occur in a fragment.
pub open spec fn dream_fragments(short_term: Seq<Seq<char>>, long_term: Seq<(Seq<char>, bool)>) -> Seq<
    Seq<char>,
>
    decreases long_term.len(),
{
    if long_term.len() == 0 {
        short_term
    } else {
        let acc = dream_fragments(short_term, long_term.drop_last());
        let (s, important) = long_term.last();
        if important && !(exists|i: int| 0 <= i < acc.len() && contains(acc[i], repeat_key(s))) {
            acc.push(s)
        } else {
            acc
        }
    }
}

proof fn lemma_chars_within(s: Seq<char>, limit: int, k: int)
    requires
        0 <= k <= s.len(),
        byte_offset(s, k) <= limit,
    ensures
        k <= chars_within(s, limit, k) <= s.len(),
        byte_offset(s, chars_within(s, limit, k)) <= limit,
        chars_within(s, limit, k) < s.len() ==> byte_offset(s, chars_within(s, limit, k) + 1) > limit,
    decreases s.len() - k,
{
    if k < s.len() && byte_offset(s, k + 1) <= limit {
        lemma_chars_within(s, limit, k + 1);
    }
}

/// The start of a memory used to spot a repeat.
fn repeat_key_exec(s: &Vec<char>) -> (r: Vec<char>)
    ensures
        r@ == repeat_key(s@),
{
    let mut k: usize = 0;
    proof {
        assert(s@.take(0) =~= Seq::<char>::empty());
    }
    while k < s.len() && byte_offset_exec(s, k + 1) <= 20
        invariant
            k <= s@.len(),
            byte_offset(s@, k as int) <= 20,
            chars_within(s@, 20, 0) == chars_within(s@, 20, k as int),
        decreases s@.len() - k,
    {
        k = k + 1;
    }
    slice_chars(s, 0, k)
}

/// The fragments of memory a dream is woven from: the recent short-term
/// memories, then the long-term memories (with whether each is important,
/// of importance above 0.5) whose start is not yet among them. The start
/// of an important memory is cut at 20 bytes to look for it once there are
/// fragments already (recent memories, or an earlier important memory), and
/// must then be cuttable there.
pub fn dream_fragments_exec(short_term: &Vec<String>, long_term: &Vec<(String, bool)>) -> (r: Vec<
    String,
>)
    requires
        forall|i: int|
            0 <= i < long_term@.len() && #[trigger] long_term@[i].1 && (short_term@.len() > 0
                || exists|j: int| 0 <= j < i && long_term@[j].1) ==> cuts_at_20_bytes(
                long_term@[i].0@,
            ),
    ensures
        string_views(r@) == dream_fragments(
            string_views(short_term@),
            long_term@.map_values(|e: (String, bool)| (e.0@, e.1)),
        ),
{
    let ghost lt = long_term@.map_values(|e: (String, bool)| (e.0@, e.1));
    let mut acc: Vec<String> = Vec::new();
    let mut i: usize = 0;
    while i < short_term.len()
        invariant
            i <= short_term@.len(),
            string_views(acc@) == string_views(short_term@).take(i as int),
        decreases short_term@.len() - i,
    {
        let ghost before = acc@;
        acc.push(short_term[i].clone());
        assert(string_views(acc@) =~= string_views(short_term@).take(i + 1)) by {
            assert(string_views(acc@) =~= string_views(before).push(short_term@[i as int]@));
        }
        i = i + 1;
    }
    assert(string_views(short_term@).take(short_term@.len() as int) =~= string_views(short_term@));
    let mut j: usize = 0;
    assert(lt.take(0) =~= Seq::<(Seq<char>, bool)>::empty());
    while j < long_term.len()
        invariant
            j <= long_term@.len(),
            lt == long_term@.map_values(|e: (String, bool)| (e.0@, e.1)),
            string_views(acc@) == dream_fragments(string_views(short_term@), lt.take(j as int)),
        decreases long_term@.len() - j,
    {
        proof {
            assert(lt.take(j + 1).drop_last() =~= lt.take(j as int));
            assert(lt.take(j + 1).last() == (long_term@[j as int].0@, long_term@[j as int].1));
        }
        let (s, important) = (&long_term[j].0, long_term[j].1);
        if important {
            let cs = chars_of(s.as_str());
            let key = repeat_key_exec(&cs);
            let mut seen = false;
            let mut k: usize = 0;
            while k < acc.len()
                invariant_except_break
                    !seen,
                invariant
                    k <= acc@.len(),
                    key@ == repeat_key(s@),
                    forall|m: int| 0 <= m < k ==> !contains(acc@[m]@, key@),
                ensures
                    seen ==> k < acc@.len() && contains(acc@[k as int]@, key@),
                    !seen ==> forall|m: int| 0 <= m < acc@.len() ==> !contains(acc@[m]@, key@),
                decreases acc@.len() - k,
            {
                let frag = chars_of(acc[k].as_str());
                if contains_exec(&frag, &key) {
                    seen = true;
                    break;
                }
                k = k + 1;
            }
            let ghost acc_views = string_views(acc@);
            if !seen {
                assert(!(exists|m: int| 0 <= m < acc_views.len() && contains(acc_views[m], repeat_key(s@)))) by {
                    assert forall|m: int| 0 <= m < acc_views.len() implies !contains(acc_views[m], repeat_key(s@)) by {
                        assert(acc_views[m] == acc@[m]@);
                    }
                }
                acc.push(s.clone());
                assert(string_views(acc@) =~= acc_views.push(s@));
            } else {
                assert(acc_views[k as int] == acc@[k as int]@);
                assert(contains(acc_views[k as int], repeat_key(s@)));
            }
        }
        j = j + 1;
    }
    assert(lt.take(long_term@.len() as int) =~= lt);
    acc
}

/// The fragments numbered from 1, one per line, or a note that there are
/// none yet.
pub open spec fn numbered_lines(items: Seq<Seq<char>>, none_text: Seq<char>) -> Seq<char> {
    if items.len() == 0 {
        none_text
    } else {
        join(Seq::new(items.len(), |i: int| decimal((i + 1) as nat) + ". "@ + items[i]), "\n"@)
    }
}

/// The fragments numbered from 1, one per line, or `none_text`.
pub fn numbered_list(items: &Vec<String>, none_text: &str) -> (s: String)
    requires
        items@.len() < u64::MAX,
    ensures
        s@ == numbered_lines(string_views(items@), none_text@),
{
    if items.len() == 0 {
        return none_text.to_owned();
    }
    let ghost want = Seq::new(
        items@.len(),
        |i: int| decimal((i + 1) as nat) + ". "@ + string_views(items@)[i],
    );
    let mut lines: Vec<String> = Vec::new();
    let mut i: usize = 0;
    while i < items.len()
        invariant
            i <= items@.len(),
            items@.len() < u64::MAX,
            want.len() == items@.len(),
            forall|m: int| 0 <= m < items@.len() ==> #[trigger] want[m] == decimal((m + 1) as nat) + ". "@ + items@[m]@,
            string_views(lines@) == want.take(i as int),
        decreases items@.len() - i,
    {
        let mut line = string_of(&decimal_chars((i + 1) as u64));
        line.append(". ");
        line.append(items[i].as_str());
        let ghost before = lines@;
        lines.push(line);
        assert(string_views(lines@) =~= want.take(i + 1)) by {
            assert(string_views(lines@) =~= string_views(before).push(want[i as int]));
        }
        i = i + 1;
    }
    assert(want.take(items@.len() as int) =~= want);
    join_strings(&lines, "\n")
}

/// The request for a dream: who the pet is, what kind of dream to tell,
/// and the fragments of memory (the request keeps `\n` as written text in
/// its first lines).
pub open spec fn dream_prompt_text(name: Seq<char>, persona: Option<Seq<char>>, fragments: Seq<Seq<char>>) -> Seq<
    char,
> {
    let identity = match persona {
        Some(p) => p,
        None => "一个桌宠精灵"@,
    };
    "你是"@ + name + "，"@ + identity
        + "。你现在睡着了，正在做一个梦。\\n请基于以下近期记忆碎片，生成一段简短、碎片化、略带超现实感的梦境描述（~60字中文）。\\n语气要像刚睡醒迷迷糊糊在回忆梦境：可以有跳跃感、不合逻辑，但要隐约和记忆相关。\\n不要像写文章——要像喃喃自语。\\n\\n近期记忆碎片：\\n"@
        + numbered_lines(fragments, "（暂无记忆，这是你第一次做梦）"@)
}

/// The request for a dream.
pub fn dream_prompt(name: &str, persona: Option<&str>, fragments: &Vec<String>) -> (s: String)
    requires
        fragments@.len() < u64::MAX,
    ensures
        s@ == dream_prompt_text(
            name@,
            match persona {
                Some(p) => Some(p@),
                None => None,
            },
            string_views(fragments@),
        ),
{
    let mut s = "你是".to_owned();
    s.append(name);
    s.append("，");
    match persona {
        Some(p) => s.append(p),
        None => s.append("一个桌宠精灵"),
    }
    s.append(
        "。你现在睡着了，正在做一个梦。\\n请基于以下近期记忆碎片，生成一段简短、碎片化、略带超现实感的梦境描述（~60字中文）。\\n语气要像刚睡醒迷迷糊糊在回忆梦境：可以有跳跃感、不合逻辑，但要隐约和记忆相关。\\n不要像写文章——要像喃喃自语。\\n\\n近期记忆碎片：\\n",
    );
    s.append(numbered_list(fragments, "（暂无记忆，这是你第一次做梦）").as_str());
    s
}

/// The memory a dream is filed under: the first fragment's first 100
/// characters.
pub fn dream_memory_snippet(fragments: &Vec<String>) -> (r: Option<String>)
    ensures
        fragments@.len() == 0 ==> r is None,
        fragments@.len() > 0 ==> (r matches Some(t) && t@ == fragments@[0]@.take(
            if fragments@[0]@.len() < 100 {
                fragments@[0]@.len() as int
            } else {
                100
            },
        )),
{
    if fragments.len() == 0 {
        return None;
    }
    let cs = chars_of(fragments[0].as_str());
    let n = if cs.len() < 100 {
        cs.len()
    } else {
        100
    };
    let head = slice_chars(&cs, 0, n);
    Some(string_of(&head))
}

/// The system prompt and the question that send the pet exploring a topic
/// it is curious about.
pub open spec fn research_prompts(topic: Seq<char>) -> (Seq<char>, Seq<char>) {
    (
        "你是一个好奇的桌宠，正利用空闲时间主动探索感兴趣的话题。你对「"@ + topic
            + "」特别感兴趣。请生成一段简短的探索笔记（~80字），内容可以是一个有趣的知识点、一个引人思考的问题、或者一个相关的观察。语气保持好奇、生动，不要像维基百科。"@,
        "我想了解一下「"@ + topic + "」方面有什么有趣的。"@,
    )
}

/// The system prompt and the question that send the pet exploring a topic.
pub fn research_prompt(topic: &str) -> (r: (String, String))
    ensures
        (r.0@, r.1@) == research_prompts(topic@),
{
    let mut system = "你是一个好奇的桌宠，正利用空闲时间主动探索感兴趣的话题。你对「".to_owned();
    system.append(topic);
    system.append(
        "」特别感兴趣。请生成一段简短的探索笔记（~80字），内容可以是一个有趣的知识点、一个引人思考的问题、或者一个相关的观察。语气保持好奇、生动，不要像维基百科。",
    );
    let mut question = "我想了解一下「".to_owned();
    question.append(topic);
    question.append("」方面有什么有趣的。");
    (system, question)
}

} // verus!
