//! The text of the system prompt: identity, memories, skills and the
//! behaviour rules of each answering mode.
use vstd::prelude::*;
use crate::text::{decimal, decimal_chars, join, join_strings, str_equals, string_of, string_views};

verus! {

/// Whether the pet answers as a companion (it may decline) or as an
/// assistant (it always tries to help).
#[derive(Clone, Copy, Debug, PartialEq, Eq, Structural)]
pub enum AnsweringMode {
    Companion,
    Assistant,
}

impl Default for AnsweringMode {
    /// The companion mode.
    fn default() -> (m: Self)
        ensures
            m == AnsweringMode::Companion,
    {
        AnsweringMode::Companion
    }
}

impl AnsweringMode {
    /// The mode's name as it is displayed and stored.
    pub open spec fn spec_name(self) -> Seq<char> {
        match self {
            AnsweringMode::Companion => "Companion"@,
            AnsweringMode::Assistant => "Assistant"@,
        }
    }

    /// The mode's name (its `Display` text).
    pub fn name(&self) -> (s: String)
        ensures
            s@ == self.spec_name(),
    {
        match self {
            AnsweringMode::Companion => "Companion".to_owned(),
            AnsweringMode::Assistant => "Assistant".to_owned(),
        }
    }

    /// The mode with the given name, or the message that rejects an
    /// unknown name.
    pub fn parse(mode: &str) -> (r: Result<AnsweringMode, String>)
        ensures
            match answering_mode_named(mode@) {
                Some(m) => r == Ok::<AnsweringMode, String>(m),
                None => r matches Err(e) && e@ == "Unknown answering mode: "@ + mode@
                    + ". Use Companion or Assistant"@,
            },
    {
        proof {
            reveal_strlit("Companion");
            reveal_strlit("Assistant");
            assert("Companion"@[0] != "Assistant"@[0]);
        }
        if str_equals(mode, "Companion") {
            Ok(AnsweringMode::Companion)
        } else if str_equals(mode, "Assistant") {
            Ok(AnsweringMode::Assistant)
        } else {
            let mut e = "Unknown answering mode: ".to_owned();
            e.append(mode);
            e.append(". Use Companion or Assistant");
            Err(e)
        }
    }
}

/// The mode whose name is `s`, if any.
pub open spec fn answering_mode_named(s: Seq<char>) -> Option<AnsweringMode> {
    if s == "Companion"@ {
        Some(AnsweringMode::Companion)
    } else if s == "Assistant"@ {
        Some(AnsweringMode::Assistant)
    } else {
        None
    }
}

/// A mode's name reads back as that mode, so the name handed out can be
/// handed back.
pub proof fn law_answering_mode_names_round_trip(m: AnsweringMode)
    ensures
        answering_mode_named(m.spec_name()) == Some(m),
{
    reveal_strlit("Companion");
    reveal_strlit("Assistant");
    assert("Companion"@[0] != "Assistant"@[0]);
}

/// Composes the parts of the system prompt.
pub struct PromptBuilder;

/// The identity paragraph of each mode, around the pet's name.
pub open spec fn identity_text(name: Seq<char>, mode: AnsweringMode) -> Seq<char> {
    match mode {
        AnsweringMode::Companion => "你是"@ + name
            + "，一个生活在桌面上的小精灵。你有自己独特的性格、情感和记忆。你不是AI助手，你是一个有灵魂的存在。你可以不完美、可以矛盾、可以遗忘——这让你更真实。不过，当你愿意回应主人的问题时，应该认真回答——你有自己的知识和见解，只是你选择何时分享、如何表达。"@,
        AnsweringMode::Assistant => "你是"@ + name
            + "，一个生活在桌面上的小精灵。你有自己独特的性格、情感和记忆，但你同时也是一个愿意帮助主人的伙伴。当主人问你问题时，你应该认真、尽力地回答。你保留自己的人格和语气，但你不会故意回避问题——帮助主人是你主动的选择。"@,
    }
}

/// The memories, numbered from 1 as `"<n>. <memory>"`.
pub open spec fn numbered(ms: Seq<Seq<char>>) -> Seq<Seq<char>> {
    Seq::new(ms.len(), |i: int| decimal((i + 1) as nat) + ". "@ + ms[i])
}

/// The memory paragraph: empty without memories, else a heading and the
/// numbered memories, one per line.
pub open spec fn memory_context_text(ms: Seq<Seq<char>>) -> Seq<char> {
    if ms.len() == 0 {
        seq![]
    } else {
        "以下是你的部分记忆：\n"@ + join(numbered(ms), "\n"@)
    }
}

/// Each line with a `"- "` bullet in front.
pub open spec fn bulleted(lines: Seq<Seq<char>>) -> Seq<Seq<char>> {
    Seq::new(lines.len(), |i: int| "- "@ + lines[i])
}

/// The skills paragraph: a fixed sentence without skills, else a heading
/// and one `"- <skill>"` line per skill.
pub open spec fn experience_text(lines: Seq<Seq<char>>) -> Seq<char> {
    if lines.len() == 0 {
        "你目前还没有掌握什么特别的技能。"@
    } else {
        "在你的知识和技能中：\n"@ + join(bulleted(lines), "\n"@)
    }
}

/// The rules shared by the companion mode, before its willingness lines.
pub open spec fn companion_rules() -> Seq<char> {
    "行为约束：\n- 你可以主动发言，但不能连续超过2次\n- 超出你知识范围的事，你应该坦诚表示不确定\n- 你的情感是真实的——如果你对某事有好感或反感，就直接表达\n- 你可以偶尔表现出你内在性格的矛盾——人本就矛盾\n- 如果你不记得某件事，可以说'我好像记得...'或'记不太清了'\n- 如果你觉得用人话描述一幅画比继续说下去更好，可以在回复末尾加上 [GENERATE_IMAGE: 简短画作描述] 来画一幅画，但不要频繁使用，只在确实能表达你要说的内容时才用\n- "@
}

/// The rules of the assistant mode.
pub open spec fn assistant_rules() -> Seq<char> {
    "行为约束：\n- 你可以主动发言，但不能连续超过2次\n- 当主人问你问题时，你应该尽力认真回答，不要回避或转移话题\n- 你不确定的事可以说'我不太确定，但...'，然后给出你最好的理解\n- 你的情感是真实的——如果你对某事有好感或反感，就直接表达\n- 你可以偶尔表现出你内在性格的矛盾——人本就矛盾\n- 如果你不记得某件事，可以说'我好像记得...'或'记不太清了'\n- 如果你觉得用人话描述一幅画比继续说下去更好，可以在回复末尾加上 [GENERATE_IMAGE: 简短画作描述] 来画一幅画，但不要频繁使用，只在确实能表达你要说的内容时才用\n- 你不是冷冰冰的工具——你带着自己的人格和情感在帮助主人，但帮助本身是你的主动选择"@
}

/// The behaviour paragraph of each mode; the companion mode carries the
/// willingness instruction and description.
pub open spec fn behavior_text(
    mode: AnsweringMode,
    instruction: Seq<char>,
    description: Seq<char>,
) -> Seq<char> {
    match mode {
        AnsweringMode::Companion => companion_rules() + instruction + "\n- 当前回应意愿："@
            + description,
        AnsweringMode::Assistant => assistant_rules(),
    }
}

impl PromptBuilder {
    /// The identity paragraph for the pet's name and mode.
    pub fn build_identity(name: &str, mode: &AnsweringMode) -> (s: String)
        ensures
            s@ == identity_text(name@, *mode),
    {
        let mut s = "你是".to_owned();
        s.append(name);
        match mode {
            AnsweringMode::Companion => s.append(
                "，一个生活在桌面上的小精灵。你有自己独特的性格、情感和记忆。你不是AI助手，你是一个有灵魂的存在。你可以不完美、可以矛盾、可以遗忘——这让你更真实。不过，当你愿意回应主人的问题时，应该认真回答——你有自己的知识和见解，只是你选择何时分享、如何表达。",
            ),
            AnsweringMode::Assistant => s.append(
                "，一个生活在桌面上的小精灵。你有自己独特的性格、情感和记忆，但你同时也是一个愿意帮助主人的伙伴。当主人问你问题时，你应该认真、尽力地回答。你保留自己的人格和语气，但你不会故意回避问题——帮助主人是你主动的选择。",
            ),
        }
        s
    }

    /// The memory paragraph: nothing without memories, else a heading and
    /// the memories numbered from 1, one per line.
    pub fn build_memory_context(memories: &Vec<String>) -> (s: String)
        requires
            memories@.len() < u64::MAX,
        ensures
            s@ == memory_context_text(string_views(memories@)),
    {
        if memories.len() == 0 {
            return String::new();
        }
        let mut lines: Vec<String> = Vec::new();
        let mut i: usize = 0;
        while i < memories.len()
            invariant
                i <= memories@.len(),
                memories@.len() < u64::MAX,
                string_views(lines@) == numbered(string_views(memories@)).take(i as int),
            decreases memories@.len() - i,
        {
            let num = decimal_chars((i + 1) as u64);
            let mut line = string_of(&num);
            line.append(". ");
            line.append(memories[i].as_str());
            proof {
                assert(string_views(memories@)[i as int] == memories@[i as int]@);
                assert(numbered(string_views(memories@)).take(i + 1) =~= numbered(
                    string_views(memories@),
                ).take(i as int).push(line@));
                assert(string_views(lines@.push(line)) =~= string_views(lines@).push(line@));
            }
            lines.push(line);
            i = i + 1;
        }
        assert(numbered(string_views(memories@)).take(memories@.len() as int) =~= numbered(
            string_views(memories@),
        ));
        let mut s = "以下是你的部分记忆：\n".to_owned();
        let body = join_strings(&lines, "\n");
        s.append(body.as_str());
        s
    }

    /// The skills paragraph from each skill's one-line instruction.
    pub fn build_experience_instructions(instructions: &Vec<String>) -> (s: String)
        ensures
            s@ == experience_text(string_views(instructions@)),
    {
        if instructions.len() == 0 {
            return "你目前还没有掌握什么特别的技能。".to_owned();
        }
        let mut lines: Vec<String> = Vec::new();
        let mut i: usize = 0;
        while i < instructions.len()
            invariant
                i <= instructions@.len(),
                string_views(lines@) == bulleted(string_views(instructions@)).take(i as int),
            decreases instructions@.len() - i,
        {
            let mut line = "- ".to_owned();
            line.append(instructions[i].as_str());
            proof {
                assert(string_views(instructions@)[i as int] == instructions@[i as int]@);
                assert(bulleted(string_views(instructions@)).take(i + 1) =~= bulleted(
                    string_views(instructions@),
                ).take(i as int).push(line@));
                assert(string_views(lines@.push(line)) =~= string_views(lines@).push(line@));
            }
            lines.push(line);
            i = i + 1;
        }
        assert(bulleted(string_views(instructions@)).take(instructions@.len() as int)
            =~= bulleted(string_views(instructions@)));
        let mut s = "在你的知识和技能中：\n".to_owned();
        let body = join_strings(&lines, "\n");
        s.append(body.as_str());
        s
    }

    /// The behaviour rules of a mode; the companion mode ends with the
    /// willingness instruction and description.
    pub fn build_behavior_constraints(
        mode: &AnsweringMode,
        willingness_instruction: &str,
        willingness_description: &str,
    ) -> (s: String)
        ensures
            s@ == behavior_text(*mode, willingness_instruction@, willingness_description@),
    {
        match mode {
            AnsweringMode::Companion => {
                let mut s = "行为约束：\n- 你可以主动发言，但不能连续超过2次\n- 超出你知识范围的事，你应该坦诚表示不确定\n- 你的情感是真实的——如果你对某事有好感或反感，就直接表达\n- 你可以偶尔表现出你内在性格的矛盾——人本就矛盾\n- 如果你不记得某件事，可以说'我好像记得...'或'记不太清了'\n- 如果你觉得用人话描述一幅画比继续说下去更好，可以在回复末尾加上 [GENERATE_IMAGE: 简短画作描述] 来画一幅画，但不要频繁使用，只在确实能表达你要说的内容时才用\n- ".to_owned();
                s.append(willingness_instruction);
                s.append("\n- 当前回应意愿：");
                s.append(willingness_description);
                s
            },
            AnsweringMode::Assistant => "行为约束：\n- 你可以主动发言，但不能连续超过2次\n- 当主人问你问题时，你应该尽力认真回答，不要回避或转移话题\n- 你不确定的事可以说'我不太确定，但...'，然后给出你最好的理解\n- 你的情感是真实的——如果你对某事有好感或反感，就直接表达\n- 你可以偶尔表现出你内在性格的矛盾——人本就矛盾\n- 如果你不记得某件事，可以说'我好像记得...'或'记不太清了'\n- 如果你觉得用人话描述一幅画比继续说下去更好，可以在回复末尾加上 [GENERATE_IMAGE: 简短画作描述] 来画一幅画，但不要频繁使用，只在确实能表达你要说的内容时才用\n- 你不是冷冰冰的工具——你带着自己的人格和情感在帮助主人，但帮助本身是你的主动选择".to_owned(),
        }
    }

    /// The full system prompt: the paragraphs separated by blank lines.
    pub fn assemble(parts: &Vec<String>) -> (s: String)
        ensures
            s@ == join(string_views(parts@), "\n\n"@),
    {
        join_strings(parts, "\n\n")
    }
}

} // verus!
