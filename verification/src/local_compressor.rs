//! Zero-cost local compression of chat messages: filler removal, entity
//! extraction, key-point truncation and sentiment-word counting.
use vstd::prelude::*;
use crate::text::{
    append_chars, chars_of, occurs_at, occurs_at_exec, contains, contains_exec, string_of,
    trim, trim_chars, trim_start, trim_end, is_white_space, white_space, views, string_views,
    chars_equal,
};

verus! {

/// Filler words and interjections that compression drops, in the order they are removed.
pub open spec fn filler_words() -> Seq<Seq<char>> {
    seq![
        "那个"@,
        "这个"@,
        "嗯"@,
        "啊"@,
        "呃"@,
        "哦"@,
        "嘛"@,
        "吧"@,
        "呢"@,
        "呀"@,
        "哈"@,
        "就是说"@,
        "然后"@,
        "就是"@,
        "反正"@,
        "怎么说呢"@,
        "那个啥"@,
        "其实"@,
        "你知道的"@,
        "你懂的"@,
        "说实话"@,
        "说起来"@,
        "我觉得吧"@,
    ]
}

/// Words that mark a positive sentiment.
pub open spec fn positive_words() -> Seq<Seq<char>> {
    seq![
        "喜欢"@,
        "开心"@,
        "高兴"@,
        "爱"@,
        "感谢"@,
        "谢谢"@,
        "棒"@,
        "好"@,
        "赞"@,
        "厉害"@,
        "佩服"@,
        "感动"@,
        "温暖"@,
        "幸福"@,
        "惊喜"@,
        "期待"@,
        "好看"@,
        "有趣"@,
        "可爱"@,
        "帅"@,
        "美"@,
        "精彩"@,
        "成功"@,
        "加油"@,
        "支持"@,
        "哈哈哈"@,
        "哈哈"@,
        "嘻嘻"@,
        "嘿嘿"@,
        "耶"@,
    ]
}

/// Words that mark a negative sentiment (one of them is listed twice and counts twice).
pub open spec fn negative_words() -> Seq<Seq<char>> {
    seq![
        "讨厌"@,
        "烦"@,
        "生气"@,
        "难过"@,
        "伤心"@,
        "失望"@,
        "无聊"@,
        "累"@,
        "困"@,
        "痛苦"@,
        "焦虑"@,
        "担心"@,
        "害怕"@,
        "讨厌"@,
        "糟糕"@,
        "垃圾"@,
        "失败"@,
        "受不了"@,
        "无语"@,
        "呵呵"@,
        "唉"@,
        "真是的"@,
        "醉了"@,
        "服了"@,
    ]
}

/// Time expressions recognised as entities, in the order they are reported.
pub open spec fn time_words() -> Seq<Seq<char>> {
    seq![
        "今天"@,
        "明天"@,
        "昨天"@,
        "早上"@,
        "下午"@,
        "晚上"@,
        "周一"@,
        "周二"@,
        "周三"@,
        "周四"@,
        "周五"@,
        "周六"@,
        "周日"@,
        "星期一"@,
        "星期二"@,
        "星期三"@,
        "星期四"@,
        "星期五"@,
        "星期六"@,
        "星期日"@,
        "上周"@,
        "下周"@,
        "本月"@,
        "上月"@,
    ]
}

/// The filler words, as character vectors.
fn filler_word_vec() -> (v: Vec<Vec<char>>)
    ensures
        v@.map_values(|w: Vec<char>| w@) == filler_words(),
{
    let mut v: Vec<Vec<char>> = Vec::new();
    v.push(chars_of("那个"));
    v.push(chars_of("这个"));
    v.push(chars_of("嗯"));
    v.push(chars_of("啊"));
    v.push(chars_of("呃"));
    v.push(chars_of("哦"));
    v.push(chars_of("嘛"));
    v.push(chars_of("吧"));
    v.push(chars_of("呢"));
    v.push(chars_of("呀"));
    v.push(chars_of("哈"));
    v.push(chars_of("就是说"));
    v.push(chars_of("然后"));
    v.push(chars_of("就是"));
    v.push(chars_of("反正"));
    v.push(chars_of("怎么说呢"));
    v.push(chars_of("那个啥"));
    v.push(chars_of("其实"));
    v.push(chars_of("你知道的"));
    v.push(chars_of("你懂的"));
    v.push(chars_of("说实话"));
    v.push(chars_of("说起来"));
    v.push(chars_of("我觉得吧"));
    assert(v@.map_values(|w: Vec<char>| w@) =~= filler_words());
    v
}

/// The positive words, as character vectors.
fn positive_word_vec() -> (v: Vec<Vec<char>>)
    ensures
        v@.map_values(|w: Vec<char>| w@) == positive_words(),
{
    let mut v: Vec<Vec<char>> = Vec::new();
    v.push(chars_of("喜欢"));
    v.push(chars_of("开心"));
    v.push(chars_of("高兴"));
    v.push(chars_of("爱"));
    v.push(chars_of("感谢"));
    v.push(chars_of("谢谢"));
    v.push(chars_of("棒"));
    v.push(chars_of("好"));
    v.push(chars_of("赞"));
    v.push(chars_of("厉害"));
    v.push(chars_of("佩服"));
    v.push(chars_of("感动"));
    v.push(chars_of("温暖"));
    v.push(chars_of("幸福"));
    v.push(chars_of("惊喜"));
    v.push(chars_of("期待"));
    v.push(chars_of("好看"));
    v.push(chars_of("有趣"));
    v.push(chars_of("可爱"));
    v.push(chars_of("帅"));
    v.push(chars_of("美"));
    v.push(chars_of("精彩"));
    v.push(chars_of("成功"));
    v.push(chars_of("加油"));
    v.push(chars_of("支持"));
    v.push(chars_of("哈哈哈"));
    v.push(chars_of("哈哈"));
    v.push(chars_of("嘻嘻"));
    v.push(chars_of("嘿嘿"));
    v.push(chars_of("耶"));
    assert(v@.map_values(|w: Vec<char>| w@) =~= positive_words());
    v
}

/// The negative words, as character vectors.
fn negative_word_vec() -> (v: Vec<Vec<char>>)
    ensures
        v@.map_values(|w: Vec<char>| w@) == negative_words(),
{
    let mut v: Vec<Vec<char>> = Vec::new();
    v.push(chars_of("讨厌"));
    v.push(chars_of("烦"));
    v.push(chars_of("生气"));
    v.push(chars_of("难过"));
    v.push(chars_of("伤心"));
    v.push(chars_of("失望"));
    v.push(chars_of("无聊"));
    v.push(chars_of("累"));
    v.push(chars_of("困"));
    v.push(chars_of("痛苦"));
    v.push(chars_of("焦虑"));
    v.push(chars_of("担心"));
    v.push(chars_of("害怕"));
    v.push(chars_of("讨厌"));
    v.push(chars_of("糟糕"));
    v.push(chars_of("垃圾"));
    v.push(chars_of("失败"));
    v.push(chars_of("受不了"));
    v.push(chars_of("无语"));
    v.push(chars_of("呵呵"));
    v.push(chars_of("唉"));
    v.push(chars_of("真是的"));
    v.push(chars_of("醉了"));
    v.push(chars_of("服了"));
    assert(v@.map_values(|w: Vec<char>| w@) =~= negative_words());
    v
}

/// The time expressions, as character vectors.
fn time_word_vec() -> (v: Vec<Vec<char>>)
    ensures
        v@.map_values(|w: Vec<char>| w@) == time_words(),
{
    let mut v: Vec<Vec<char>> = Vec::new();
    v.push(chars_of("今天"));
    v.push(chars_of("明天"));
    v.push(chars_of("昨天"));
    v.push(chars_of("早上"));
    v.push(chars_of("下午"));
    v.push(chars_of("晚上"));
    v.push(chars_of("周一"));
    v.push(chars_of("周二"));
    v.push(chars_of("周三"));
    v.push(chars_of("周四"));
    v.push(chars_of("周五"));
    v.push(chars_of("周六"));
    v.push(chars_of("周日"));
    v.push(chars_of("星期一"));
    v.push(chars_of("星期二"));
    v.push(chars_of("星期三"));
    v.push(chars_of("星期四"));
    v.push(chars_of("星期五"));
    v.push(chars_of("星期六"));
    v.push(chars_of("星期日"));
    v.push(chars_of("上周"));
    v.push(chars_of("下周"));
    v.push(chars_of("本月"));
    v.push(chars_of("上月"));
    assert(v@.map_values(|w: Vec<char>| w@) =~= time_words());
    v
}

/// Common family names; a name is recognised where one of them starts it.
pub open spec fn is_surname(c: char) -> bool {
    c == '王' || c == '李' || c == '张' || c == '刘' || c == '陈' || c == '杨' || c == '赵' || c == '黄' || c == '周' || c == '吴' || c == '徐' || c == '孙' || c == '胡' || c == '朱' || c == '高' || c == '林' || c == '何' || c == '郭' || c == '马' || c == '罗'
}

/// Characters that never continue a name (particles and adverbs).
pub open spec fn is_name_breaker(c: char) -> bool {
    c == '的' || c == '了' || c == '是' || c == '在' || c == '不' || c == '很' || c == '都' || c == '也' || c == '就' || c == '和' || c == '与'
}

fn surname_exec(c: char) -> (b: bool)
    ensures
        b == is_surname(c),
{
    c == '王' || c == '李' || c == '张' || c == '刘' || c == '陈' || c == '杨' || c == '赵' || c == '黄' || c == '周' || c == '吴' || c == '徐' || c == '孙' || c == '胡' || c == '朱' || c == '高' || c == '林' || c == '何' || c == '郭' || c == '马' || c == '罗'
}

fn name_breaker_exec(c: char) -> (b: bool)
    ensures
        b == is_name_breaker(c),
{
    c == '的' || c == '了' || c == '是' || c == '在' || c == '不' || c == '很' || c == '都' || c == '也' || c == '就' || c == '和' || c == '与'
}


/// `str::replace(p, "")`: every occurrence of `p`, found left to right
/// without overlap, removed.
pub open spec fn remove_all(s: Seq<char>, p: Seq<char>) -> Seq<char>
    decreases s.len(),
{
    if s.len() == 0 {
        s
    } else if p.len() > 0 && occurs_at(s, p, 0) {
        remove_all(s.skip(p.len() as int), p)
    } else {
        seq![s[0]] + remove_all(s.drop_first(), p)
    }
}

/// Each word of `ws` removed from `s` in turn.
pub open spec fn remove_words(s: Seq<char>, ws: Seq<Seq<char>>) -> Seq<char>
    decreases ws.len(),
{
    if ws.len() == 0 {
        s
    } else {
        remove_words(remove_all(s, ws[0]), ws.drop_first())
    }
}

/// Every run of white space replaced by a single space; `prev` tells whether
/// the character before `s` was white space.
pub open spec fn collapse_space(s: Seq<char>, prev: bool) -> Seq<char>
    decreases s.len(),
{
    if s.len() == 0 {
        s
    } else if is_white_space(s[0]) {
        if prev {
            collapse_space(s.drop_first(), true)
        } else {
            seq![' '] + collapse_space(s.drop_first(), true)
        }
    } else {
        seq![s[0]] + collapse_space(s.drop_first(), false)
    }
}

/// A message with its filler words removed, white space runs collapsed to
/// one space, and the ends trimmed.
pub open spec fn without_fillers(s: Seq<char>) -> Seq<char> {
    trim(collapse_space(remove_words(s, filler_words()), false))
}

/// The key points of a message: the filler-free text, cut to 200
/// characters with an ellipsis when longer.
pub open spec fn key_points(s: Seq<char>) -> Seq<char> {
    let c = without_fillers(s);
    if c.len() <= 200 {
        c
    } else {
        c.take(200) + seq!['…']
    }
}

/// Whether white space stood last: the last character of `a`, or `prev`
/// where `a` is empty.
pub open spec fn ends_in_space(a: Seq<char>, prev: bool) -> bool {
    if a.len() == 0 {
        prev
    } else {
        is_white_space(a.last())
    }
}

/// Collapsing a text in two pieces collapses each piece, the second after
/// whatever the first ended with.
proof fn lemma_collapse_append(a: Seq<char>, t: Seq<char>, prev: bool)
    ensures
        collapse_space(a + t, prev) == collapse_space(a, prev) + collapse_space(
            t,
            ends_in_space(a, prev),
        ),
    decreases a.len(),
{
    if a.len() == 0 {
        assert(a + t =~= t);
    } else {
        assert((a + t).drop_first() =~= a.drop_first() + t);
        assert((a + t)[0] == a[0]);
        lemma_collapse_append(a.drop_first(), t, is_white_space(a[0]));
        assert(ends_in_space(a.drop_first(), is_white_space(a[0])) == ends_in_space(a, prev));
        if is_white_space(a[0]) {
            if !prev {
                assert(seq![' '] + (collapse_space(a.drop_first(), true) + collapse_space(
                    t,
                    ends_in_space(a, prev),
                )) =~= seq![' '] + collapse_space(a.drop_first(), true) + collapse_space(
                    t,
                    ends_in_space(a, prev),
                ));
            }
        } else {
            assert(seq![a[0]] + (collapse_space(a.drop_first(), false) + collapse_space(
                t,
                ends_in_space(a, prev),
            )) =~= seq![a[0]] + collapse_space(a.drop_first(), false) + collapse_space(
                t,
                ends_in_space(a, prev),
            ));
        }
    }
}

/// A run of white space after white space adds nothing.
proof fn lemma_collapse_run_after_space(w: Seq<char>)
    requires
        forall|i: int| 0 <= i < w.len() ==> is_white_space(#[trigger] w[i]),
    ensures
        collapse_space(w, true) == Seq::<char>::empty(),
    decreases w.len(),
{
    if w.len() > 0 {
        assert(is_white_space(w[0]));
        lemma_collapse_run_after_space(w.drop_first());
    }
}

/// Collapsing white space puts exactly one space where a run of white
/// space (spaces, tabs, line breaks, full-width spaces, ...) separates two
/// other characters: the text before the run and the text after it are
/// collapsed on their own, and a single space joins them.
pub proof fn law_space_run_becomes_one_space(a: Seq<char>, w: Seq<char>, b: Seq<char>)
    requires
        a.len() > 0,
        !is_white_space(a.last()),
        w.len() > 0,
        forall|i: int| 0 <= i < w.len() ==> is_white_space(#[trigger] w[i]),
        b.len() > 0,
        !is_white_space(b[0]),
    ensures
        collapse_space(a + w + b, false) == collapse_space(a, false) + seq![' '] + collapse_space(
            b,
            false,
        ),
{
    lemma_collapse_append(a, w + b, false);
    assert(a + w + b =~= a + (w + b));
    lemma_collapse_append(w, b, false);
    assert(is_white_space(w[0]));
    lemma_collapse_run_after_space(w.drop_first());
    assert(collapse_space(w, false) =~= seq![' ']);
    assert(ends_in_space(w, false));
    assert(collapse_space(b, true) == collapse_space(b, false));
}

/// Text whose white space is single spaces between other characters: every
/// white-space character is a space, no two stand together, and none stands
/// at either end.
pub open spec fn single_spaced(s: Seq<char>) -> bool {
    &&& forall|i: int| 0 <= i < s.len() && is_white_space(#[trigger] s[i]) ==> s[i] == ' '
    &&& forall|i: int|
        0 < i < s.len() && is_white_space(#[trigger] s[i]) ==> !is_white_space(s[i - 1])
    &&& s.len() > 0 ==> !is_white_space(s[0]) && !is_white_space(s.last())
}

/// Collapsing leaves single spaces between other characters alone.
proof fn lemma_collapse_single_spaced(s: Seq<char>, prev: bool)
    requires
        forall|i: int| 0 <= i < s.len() && is_white_space(#[trigger] s[i]) ==> s[i] == ' ',
        forall|i: int|
            0 < i < s.len() && is_white_space(#[trigger] s[i]) ==> !is_white_space(s[i - 1]),
        prev && s.len() > 0 ==> !is_white_space(s[0]),
    ensures
        collapse_space(s, prev) == s,
    decreases s.len(),
{
    if s.len() > 0 {
        let r = s.drop_first();
        assert forall|i: int| 0 <= i < r.len() && is_white_space(#[trigger] r[i]) implies r[i] == ' ' by {
            assert(r[i] == s[i + 1]);
        }
        assert forall|i: int| 0 < i < r.len() && is_white_space(#[trigger] r[i]) implies !is_white_space(r[i - 1]) by {
            assert(r[i] == s[i + 1]);
            assert(r[i - 1] == s[i]);
        }
        if r.len() > 0 && is_white_space(s[0]) {
            assert(r[0] == s[1]);
            assert(is_white_space(s[1]) ==> !is_white_space(s[0]));
        }
        lemma_collapse_single_spaced(r, is_white_space(s[0]));
        assert(s =~= seq![s[0]] + r);
    }
}

/// Removing a word that does not occur leaves the text unchanged.
proof fn lemma_remove_absent(s: Seq<char>, p: Seq<char>)
    requires
        !(p.len() > 0 && contains(s, p)),
    ensures
        remove_all(s, p) == s,
    decreases s.len(),
{
    if s.len() > 0 {
        if p.len() > 0 && occurs_at(s, p, 0) {
            assert(contains(s, p));
        }
        let r = s.drop_first();
        if p.len() > 0 && contains(r, p) {
            let i = choose|i: int| occurs_at(r, p, i);
            assert(s.subrange(i + 1, i + 1 + p.len()) =~= r.subrange(i, i + p.len()));
            assert(occurs_at(s, p, i + 1));
        }
        lemma_remove_absent(r, p);
        assert(s =~= seq![s[0]] + r);
    }
}

/// Removing words none of which occurs leaves the text unchanged.
proof fn lemma_remove_words_absent(s: Seq<char>, ws: Seq<Seq<char>>)
    requires
        forall|k: int| 0 <= k < ws.len() ==> !(ws[k].len() > 0 && contains(s, #[trigger] ws[k])),
    ensures
        remove_words(s, ws) == s,
    decreases ws.len(),
{
    if ws.len() > 0 {
        lemma_remove_absent(s, ws[0]);
        assert forall|k: int| 0 <= k < ws.drop_first().len() implies !(ws.drop_first()[k].len() > 0
            && contains(s, #[trigger] ws.drop_first()[k])) by {
            assert(ws.drop_first()[k] == ws[k + 1]);
        }
        lemma_remove_words_absent(s, ws.drop_first());
    }
}

/// A clean text passes through filler removal unchanged: when no filler
/// word occurs in it and its white space is single spaces between words,
/// `remove_fillers` gives it back as it is.
pub proof fn law_clean_text_unchanged(s: Seq<char>)
    requires
        forall|k: int| 0 <= k < filler_words().len() ==> !contains(s, #[trigger] filler_words()[k]),
        single_spaced(s),
    ensures
        without_fillers(s) == s,
{
    lemma_remove_words_absent(s, filler_words());
    lemma_collapse_single_spaced(s, false);
    if s.len() > 0 {
        assert(trim_start(s) == s);
        assert(trim_end(s) == s);
    } else {
        assert(trim_start(s) == s);
    }
}

pub(crate) fn remove_all_exec(s: &Vec<char>, p: &Vec<char>) -> (r: Vec<char>)
    ensures
        r@ == remove_all(s@, p@),
{
    let mut out: Vec<char> = Vec::new();
    let mut i: usize = 0;
    assert(s@.skip(0) =~= s@);
    while i < s.len()
        invariant
            i <= s@.len(),
            out@ + remove_all(s@.skip(i as int), p@) == remove_all(s@, p@),
        decreases s@.len() - i,
    {
        let hit = p.len() > 0 && occurs_at_exec(s, p, i);
        if hit {
            proof {
                assert(s@.skip(i as int).subrange(0, p@.len() as int) =~= s@.subrange(
                    i as int,
                    i + p@.len(),
                ));
                assert(s@.skip(i as int).skip(p@.len() as int) =~= s@.skip(i + p@.len()));
            }
            i = i + p.len();
        } else {
            proof {
                if p@.len() > 0 && p@.len() <= s@.len() - i {
                    assert(s@.skip(i as int).subrange(0, p@.len() as int) =~= s@.subrange(
                        i as int,
                        i + p@.len(),
                    ));
                }
                assert(s@.skip(i as int).drop_first() =~= s@.skip(i + 1));
                assert(out@.push(s@[i as int]) + remove_all(s@.skip(i + 1), p@) =~= out@ + (
                seq![s@[i as int]] + remove_all(s@.skip(i + 1), p@)));
            }
            out.push(s[i]);
            i = i + 1;
        }
    }
    assert(out@ + remove_all(s@.skip(i as int), p@) =~= out@);
    out
}

fn remove_words_exec(s: &Vec<char>, ws: &Vec<Vec<char>>) -> (r: Vec<char>)
    ensures
        r@ == remove_words(s@, views(ws@)),
{
    let mut cur: Vec<char> = s.clone();
    assert(cur@ == s@);
    let mut k: usize = 0;
    assert(views(ws@).skip(0) =~= views(ws@));
    while k < ws.len()
        invariant
            k <= ws@.len(),
            remove_words(s@, views(ws@)) == remove_words(cur@, views(ws@).skip(k as int)),
        decreases ws@.len() - k,
    {
        let next = remove_all_exec(&cur, &ws[k]);
        assert(views(ws@).skip(k as int).drop_first() =~= views(ws@).skip(k + 1));
        cur = next;
        k = k + 1;
    }
    cur
}

fn collapse_space_exec(s: &Vec<char>) -> (r: Vec<char>)
    ensures
        r@ == collapse_space(s@, false),
{
    let mut out: Vec<char> = Vec::new();
    let mut prev = false;
    let mut i: usize = 0;
    assert(s@.skip(0) =~= s@);
    while i < s.len()
        invariant
            i <= s@.len(),
            out@ + collapse_space(s@.skip(i as int), prev) == collapse_space(s@, false),
        decreases s@.len() - i,
    {
        let c = s[i];
        assert(s@.skip(i as int).drop_first() =~= s@.skip(i + 1));
        if white_space(c) {
            if !prev {
                assert(out@.push(' ') + collapse_space(s@.skip(i + 1), true) =~= out@ + (seq![' ']
                    + collapse_space(s@.skip(i + 1), true)));
                out.push(' ');
                prev = true;
            }
        } else {
            assert(out@.push(c) + collapse_space(s@.skip(i + 1), false) =~= out@ + (seq![c]
                + collapse_space(s@.skip(i + 1), false)));
            out.push(c);
            prev = false;
        }
        i = i + 1;
    }
    assert(out@ + collapse_space(s@.skip(i as int), prev) =~= out@);
    out
}

fn remove_fillers_chars(text: &Vec<char>) -> (r: Vec<char>)
    ensures
        r@ == without_fillers(text@),
{
    let fillers = filler_word_vec();
    let removed = remove_words_exec(text, &fillers);
    let collapsed = collapse_space_exec(&removed);
    trim_chars(&collapsed)
}

/// Removes the filler words and interjections, collapses white space runs
/// to one space, and trims the ends.
pub fn remove_fillers(text: &str) -> (r: String)
    ensures
        r@ == without_fillers(text@),
{
    let cs = chars_of(text);
    let r = remove_fillers_chars(&cs);
    string_of(&r)
}

/// The key points of a message: filler-free text cut to 200 characters,
/// with an ellipsis when it was longer.
pub fn extract_key_points(text: &str) -> (r: String)
    ensures
        r@ == key_points(text@),
{
    let cs = chars_of(text);
    let cleaned = remove_fillers_chars(&cs);
    if cleaned.len() <= 200 {
        string_of(&cleaned)
    } else {
        let mut head = crate::text::slice_chars(&cleaned, 0, 200);
        head.push('…');
        assert(head@ =~= cleaned@.take(200) + seq!['…']);
        string_of(&head)
    }
}


/// `char::is_ascii_digit`.
pub open spec fn is_ascii_digit(c: char) -> bool {
    '0' <= c && c <= '9'
}

/// The words of `ws` that occur in `text`, in list order.
pub open spec fn contained_words(text: Seq<char>, ws: Seq<Seq<char>>) -> Seq<Seq<char>>
    decreases ws.len(),
{
    if ws.len() == 0 {
        seq![]
    } else {
        let rest = contained_words(text, ws.drop_first());
        if contains(text, ws[0]) {
            seq![ws[0]] + rest
        } else {
            rest
        }
    }
}

/// How many words of `ws` occur in `text` (a word listed twice counts twice).
pub open spec fn count_contained(text: Seq<char>, ws: Seq<Seq<char>>) -> nat
    decreases ws.len(),
{
    if ws.len() == 0 {
        0
    } else {
        (if contains(text, ws[0]) {
            1nat
        } else {
            0nat
        }) + count_contained(text, ws.drop_first())
    }
}

/// The maximal runs of ASCII digits in `s`, in order; `buf` is the run in
/// progress before `s`.
pub open spec fn digit_runs(s: Seq<char>, buf: Seq<char>) -> Seq<Seq<char>>
    decreases s.len(),
{
    if s.len() == 0 {
        if buf.len() > 0 {
            seq![buf]
        } else {
            seq![]
        }
    } else if is_ascii_digit(s[0]) {
        digit_runs(s.drop_first(), buf.push(s[0]))
    } else {
        (if buf.len() > 0 {
            seq![buf]
        } else {
            seq![]
        }) + digit_runs(s.drop_first(), seq![])
    }
}

/// `c` is the first character of some filler word.
pub open spec fn starts_filler(c: char) -> bool {
    exists|k: int|
        0 <= k < filler_words().len() && filler_words()[k].len() > 0 && filler_words()[k][0] == c
}

/// `c` may stand in a name after the family name.
pub open spec fn continues_name(c: char) -> bool {
    !starts_filler(c) && !is_name_breaker(c) && !is_ascii_digit(c)
}

/// The name that starts at index `j` of `s`, if any: a family name followed
/// by one or two characters that may continue a name.
pub open spec fn name_at(s: Seq<char>, j: int) -> Option<Seq<char>> {
    if 0 <= j && j + 1 < s.len() && is_surname(s[j]) && continues_name(s[j + 1]) {
        if j + 2 < s.len() && continues_name(s[j + 2]) {
            Some(s.subrange(j, j + 3))
        } else {
            Some(s.subrange(j, j + 2))
        }
    } else {
        None
    }
}

/// The names that start at index `j` of `s` or later, in order.
pub open spec fn names_from(s: Seq<char>, j: int) -> Seq<Seq<char>>
    decreases s.len() - j,
{
    if j >= s.len() {
        seq![]
    } else {
        (match name_at(s, j) {
            Some(n) => seq![n],
            None => seq![],
        }) + names_from(s, j + 1)
    }
}

/// Each word of `xs` with `prefix` in front.
pub open spec fn prefixed(prefix: Seq<char>, xs: Seq<Seq<char>>) -> Seq<Seq<char>> {
    xs.map_values(|x: Seq<char>| prefix + x)
}

/// `Vec::dedup`: runs of equal neighbours reduced to one element.
pub open spec fn dedup<T>(s: Seq<T>) -> Seq<T>
    decreases s.len(),
{
    if s.len() <= 1 {
        s
    } else if s[s.len() - 1] == s[s.len() - 2] {
        dedup(s.drop_last())
    } else {
        dedup(s.drop_last()).push(s.last())
    }
}

/// The entities of a text: the time expressions it contains, then each run
/// of digits as `数字:<digits>`, then each recognised name as `人名:<name>`,
/// with equal neighbours merged.
pub open spec fn entities_of(s: Seq<char>) -> Seq<Seq<char>> {
    dedup(
        contained_words(s, time_words()) + prefixed("数字:"@, digit_runs(s, seq![])) + prefixed(
            "人名:"@,
            names_from(s, 0),
        ),
    )
}

/// The last element of a deduplicated sequence is the last element of the
/// sequence.
pub proof fn lemma_dedup_last<T>(s: Seq<T>)
    requires
        s.len() > 0,
    ensures
        dedup(s).len() > 0,
        dedup(s).last() == s.last(),
    decreases s.len(),
{
    if s.len() > 1 {
        lemma_dedup_last(s.drop_last());
    }
}

fn starts_filler_exec(c: char, fillers: &Vec<Vec<char>>) -> (b: bool)
    requires
        views(fillers@) == filler_words(),
    ensures
        b == starts_filler(c),
{
    let mut k: usize = 0;
    while k < fillers.len()
        invariant
            k <= fillers@.len(),
            views(fillers@) == filler_words(),
            forall|m: int|
                0 <= m < k ==> !(filler_words()[m].len() > 0 && filler_words()[m][0] == c),
        decreases fillers@.len() - k,
    {
        assert(views(fillers@)[k as int] == fillers@[k as int]@);
        if fillers[k].len() > 0 && fillers[k][0] == c {
            return true;
        }
        k = k + 1;
    }
    false
}

fn continues_name_exec(c: char, fillers: &Vec<Vec<char>>) -> (b: bool)
    requires
        views(fillers@) == filler_words(),
    ensures
        b == continues_name(c),
{
    !starts_filler_exec(c, fillers) && !name_breaker_exec(c) && !('0' <= c && c <= '9')
}

/// Collects the time expressions, digit runs and names of a text, merging
/// equal neighbours.
fn extract_entities_chars(text: &Vec<char>) -> (r: Vec<Vec<char>>)
    ensures
        views(r@) == entities_of(text@),
{
    let mut ents: Vec<Vec<char>> = Vec::new();
    // time expressions
    let times = time_word_vec();
    let mut k: usize = 0;
    assert(views(times@).skip(0) =~= views(times@));
    while k < times.len()
        invariant
            k <= times@.len(),
            views(ents@) + contained_words(text@, views(times@).skip(k as int)) == contained_words(
                text@,
                views(times@),
            ),
        decreases times@.len() - k,
    {
        let hit = contains_exec(text, &times[k]);
        proof {
            assert(views(times@).skip(k as int).drop_first() =~= views(times@).skip(k + 1));
            assert(views(times@).skip(k as int)[0] == times@[k as int]@);
        }
        if hit {
            let w = times[k].clone();
            assert(views(ents@.push(w)) + contained_words(text@, views(times@).skip(k + 1))
                =~= views(ents@) + (seq![times@[k as int]@] + contained_words(
                text@,
                views(times@).skip(k + 1),
            )));
            ents.push(w);
        }
        k = k + 1;
    }
    assert(views(ents@) =~= contained_words(text@, time_words()));
    let ghost time_part = views(ents@);
    // digit runs
    let num_prefix = chars_of("数字:");
    let mut buf: Vec<char> = Vec::new();
    let mut i: usize = 0;
    assert(text@.skip(0) =~= text@);
    while i < text.len()
        invariant
            i <= text@.len(),
            num_prefix@ == "数字:"@,
            views(ents@) + prefixed("数字:"@, digit_runs(text@.skip(i as int), buf@)) == time_part
                + prefixed("数字:"@, digit_runs(text@, seq![])),
        decreases text@.len() - i,
    {
        let c = text[i];
        assert(text@.skip(i as int).drop_first() =~= text@.skip(i + 1));
        if '0' <= c && c <= '9' {
            buf.push(c);
        } else {
            if buf.len() > 0 {
                let mut e = num_prefix.clone();
                append_chars(&mut e, &buf);
                assert(views(ents@.push(e)) + prefixed(
                    "数字:"@,
                    digit_runs(text@.skip(i + 1), seq![]),
                ) =~= views(ents@) + prefixed(
                    "数字:"@,
                    seq![buf@] + digit_runs(text@.skip(i + 1), seq![]),
                ));
                ents.push(e);
            } else {
                assert(seq![] + digit_runs(text@.skip(i + 1), seq![]) =~= digit_runs(
                    text@.skip(i + 1),
                    seq![],
                ));
            }
            buf = Vec::new();
            assert(buf@ =~= Seq::<char>::empty());
        }
        i = i + 1;
    }
    if buf.len() > 0 {
        let mut e = num_prefix.clone();
        append_chars(&mut e, &buf);
        assert(views(ents@.push(e)) =~= views(ents@) + prefixed("数字:"@, seq![buf@]));
        ents.push(e);
    } else {
        assert(views(ents@) + prefixed("数字:"@, seq![]) =~= views(ents@));
    }
    let ghost num_part = views(ents@);
    // names
    let fillers = filler_word_vec();
    let name_prefix = chars_of("人名:");
    let mut j: usize = 0;
    while j < text.len()
        invariant
            j <= text@.len(),
            name_prefix@ == "人名:"@,
            views(fillers@) == filler_words(),
            views(ents@) + prefixed("人名:"@, names_from(text@, j as int)) == num_part + prefixed(
                "人名:"@,
                names_from(text@, 0),
            ),
        decreases text@.len() - j,
    {
        let ch = text[j];
        let mut found: Option<usize> = None;
        if surname_exec(ch) && j + 1 < text.len() {
            if continues_name_exec(text[j + 1], &fillers) {
                let name_len: usize = if j + 2 < text.len() && continues_name_exec(
                    text[j + 2],
                    &fillers,
                ) {
                    3
                } else {
                    2
                };
                found = Some(name_len);
            }
        }
        match found {
            Some(len) => {
                let name = crate::text::slice_chars(text, j, j + len);
                let mut e = name_prefix.clone();
                append_chars(&mut e, &name);
                assert(name_at(text@, j as int) == Some(name@));
                assert(views(ents@.push(e)) + prefixed("人名:"@, names_from(text@, j + 1))
                    =~= views(ents@) + prefixed(
                    "人名:"@,
                    seq![name@] + names_from(text@, j + 1),
                ));
                ents.push(e);
            },
            None => {
                assert(name_at(text@, j as int) is None);
                assert(seq![] + names_from(text@, j + 1) =~= names_from(text@, j + 1));
            },
        }
        j = j + 1;
    }
    assert(views(ents@) =~= contained_words(text@, time_words()) + prefixed(
        "数字:"@,
        digit_runs(text@, seq![]),
    ) + prefixed("人名:"@, names_from(text@, 0)));
    // merge equal neighbours
    let mut out: Vec<Vec<char>> = Vec::new();
    let mut m: usize = 0;
    while m < ents.len()
        invariant
            m <= ents@.len(),
            views(out@) == dedup(views(ents@).take(m as int)),
        decreases ents@.len() - m,
    {
        let ghost t = views(ents@).take(m + 1);
        assert(t.drop_last() =~= views(ents@).take(m as int));
        if m > 0 {
            proof {
                lemma_dedup_last(views(ents@).take(m as int));
            }
            let last = out.len() - 1;
            assert(views(out@)[last as int] == out@[last as int]@);
            if chars_equal(&out[last], &ents[m]) {
                m = m + 1;
                continue;
            }
        }
        let e = ents[m].clone();
        assert(views(out@.push(e)) =~= views(out@).push(e@));
        out.push(e);
        m = m + 1;
    }
    assert(views(ents@).take(ents@.len() as int) =~= views(ents@));
    out
}

/// Extracts the entities of a text: time expressions, digit runs
/// (`数字:<digits>`) and names (`人名:<name>`), with equal neighbours merged.
pub fn extract_entities(text: &str) -> (r: Vec<String>)
    ensures
        string_views(r@) == entities_of(text@),
{
    let cs = chars_of(text);
    let ents = extract_entities_chars(&cs);
    let mut r: Vec<String> = Vec::new();
    let mut k: usize = 0;
    while k < ents.len()
        invariant
            k <= ents@.len(),
            string_views(r@) == views(ents@).take(k as int),
        decreases ents@.len() - k,
    {
        let s = string_of(&ents[k]);
        assert(views(ents@)[k as int] == ents@[k as int]@);
        assert(views(ents@).take(k + 1) =~= views(ents@).take(k as int).push(ents@[k as int]@));
        assert(string_views(r@.push(s)) =~= string_views(r@).push(s@));
        r.push(s);
        k = k + 1;
    }
    assert(views(ents@).take(ents@.len() as int) =~= views(ents@));
    r
}

fn count_contained_exec(text: &Vec<char>, ws: &Vec<Vec<char>>) -> (n: u32)
    requires
        ws@.len() < 1000,
    ensures
        n == count_contained(text@, views(ws@)),
{
    let mut n: u32 = 0;
    let mut k: usize = ws.len();
    assert(views(ws@).skip(ws@.len() as int) =~= Seq::<Seq<char>>::empty());
    while k > 0
        invariant
            k <= ws@.len(),
            ws@.len() < 1000,
            n == count_contained(text@, views(ws@).skip(k as int)),
            n <= ws@.len() - k,
        decreases k,
    {
        k = k - 1;
        assert(views(ws@).skip(k as int).drop_first() =~= views(ws@).skip(k + 1));
        assert(views(ws@).skip(k as int)[0] == ws@[k as int]@);
        if contains_exec(text, &ws[k]) {
            n = n + 1;
        }
    }
    assert(views(ws@).skip(0) =~= views(ws@));
    n
}

/// How many of the positive and of the negative sentiment words occur in
/// the text; each listed word counts once however often it occurs.
pub fn sentiment_word_hits(text: &str) -> (r: (u32, u32))
    ensures
        r.0 == count_contained(text@, positive_words()),
        r.1 == count_contained(text@, negative_words()),
{
    let cs = chars_of(text);
    let pos = positive_word_vec();
    let neg = negative_word_vec();
    assert(views(pos@).len() == pos@.len());
    assert(views(neg@).len() == neg@.len());
    let p = count_contained_exec(&cs, &pos);
    let n = count_contained_exec(&cs, &neg);
    (p, n)
}


/// The sentiment of a text in hundredths, from -100 to 100: 15 for each
/// positive word found, minus 15 for each negative word found, clamped.
pub open spec fn sentiment_percent(text: Seq<char>) -> int {
    let s = 15 * count_contained(text, positive_words()) - 15 * count_contained(
        text,
        negative_words(),
    );
    if s > 100 {
        100
    } else if s < -100 {
        -100
    } else {
        s
    }
}

/// The sentiment of a text in hundredths (-100 to 100), from the sentiment
/// words it contains.
pub fn analyze_sentiment_local(text: &str) -> (r: i32)
    ensures
        r == sentiment_percent(text@),
{
    let (p, n) = sentiment_word_hits(text);
    let s: i64 = 15 * (p as i64) - 15 * (n as i64);
    if s > 100 {
        100
    } else if s < -100 {
        -100
    } else {
        s as i32
    }
}

/// A message compressed without calling the model: its key points, its
/// entities and its sentiment in hundredths (-100 to 100).
pub struct CompressedMessage {
    pub summary: String,
    pub entities: Vec<String>,
    pub sentiment: i32,
}

/// Compresses a message locally: fillers are removed first, then the key
/// points, the entities and the sentiment are read from what is left.
pub fn local_compress_message(raw: &str) -> (c: CompressedMessage)
    ensures
        c.summary@ == key_points(without_fillers(raw@)),
        string_views(c.entities@) == entities_of(without_fillers(raw@)),
        c.sentiment == sentiment_percent(without_fillers(raw@)),
{
    let cleaned = remove_fillers(raw);
    let sentiment = analyze_sentiment_local(cleaned.as_str());
    let entities = extract_entities(cleaned.as_str());
    let summary = extract_key_points(cleaned.as_str());
    CompressedMessage { summary, entities, sentiment }
}

} // verus!
