//! Locating the JSON object or array inside a model's free-text reply.
use vstd::prelude::*;
use crate::text::{chars_of, slice_chars, string_of, trim, trim_chars};

verus! {

/// The index of the first `c` in `s`, if any.
pub open spec fn first_index(s: Seq<char>, c: char) -> Option<int> {
    if exists|i: int| 0 <= i < s.len() && s[i] == c {
        Some(choose|i: int| 0 <= i < s.len() && s[i] == c && forall|j: int| 0 <= j < i ==> s[j] != c)
    } else {
        None
    }
}

/// The index of the last `c` in `s`, if any.
pub open spec fn last_index(s: Seq<char>, c: char) -> Option<int> {
    if exists|i: int| 0 <= i < s.len() && s[i] == c {
        Some(choose|i: int| 0 <= i < s.len() && s[i] == c && forall|j: int| i < j < s.len() ==> s[j] != c)
    } else {
        None
    }
}

/// The part of `s` from the first `open` to the last `close`, both
/// included, when the `close` comes after the `open`; else all of `s`.
pub open spec fn enclosed(s: Seq<char>, open: char, close: char) -> Seq<char> {
    match (first_index(s, open), last_index(s, close)) {
        (Some(a), Some(b)) => if b > a {
            s.subrange(a, b + 1)
        } else {
            s
        },
        _ => s,
    }
}

pub(crate) fn first_index_exec(s: &Vec<char>, c: char) -> (r: Option<usize>)
    ensures
        r matches Some(i) ==> i < s@.len() && first_index(s@, c) == Some(i as int),
        r is None ==> first_index(s@, c) is None,
{
    let mut i: usize = 0;
    while i < s.len()
        invariant
            i <= s@.len(),
            forall|j: int| 0 <= j < i ==> s@[j] != c,
        decreases s@.len() - i,
    {
        if s[i] == c {
            proof {
                let k = choose|k: int| 0 <= k < s@.len() && s@[k] == c && forall|j: int| 0 <= j < k ==> s@[j] != c;
                assert(k == i) by {
                    if k < i {
                    } else if k > i {
                        assert(s@[i as int] != c);
                    }
                }
            }
            return Some(i);
        }
        i = i + 1;
    }
    None
}

fn last_index_exec(s: &Vec<char>, c: char) -> (r: Option<usize>)
    ensures
        r matches Some(i) ==> i < s@.len() && last_index(s@, c) == Some(i as int),
        r is None ==> last_index(s@, c) is None,
{
    let mut j: usize = s.len();
    while j > 0
        invariant
            j <= s@.len(),
            forall|m: int| j <= m < s@.len() ==> s@[m] != c,
        decreases j,
    {
        if s[j - 1] == c {
            proof {
                let i = (j - 1) as int;
                assert(s@[i] == c);
                let k = choose|k: int| 0 <= k < s@.len() && s@[k] == c && forall|m: int| k < m < s@.len() ==> s@[m] != c;
                assert(k == i) by {
                    if k < i {
                        assert(s@[i] != c);
                    } else if k > i {
                    }
                }
            }
            return Some(j - 1);
        }
        j = j - 1;
    }
    None
}

fn enclosed_range(cs: &Vec<char>, open: char, close: char) -> (r: Option<(usize, usize)>)
    ensures
        r matches Some((a, b)) ==> a < b < cs@.len() && enclosed(cs@, open, close)
            == cs@.subrange(a as int, b + 1),
        r is None ==> enclosed(cs@, open, close) == cs@,
{
    let a = first_index_exec(cs, open);
    let b = last_index_exec(cs, close);
    match (a, b) {
        (Some(a), Some(b)) => {
            if b > a {
                Some((a, b))
            } else {
                None
            }
        },
        _ => None,
    }
}

/// The JSON object inside a reply: from the first `{` to the last `}`,
/// or the whole reply when there is no such pair.
pub fn extract_json(text: &str) -> (r: &str)
    ensures
        r@ == enclosed(text@, '{', '}'),
{
    let cs = chars_of(text);
    match enclosed_range(&cs, '{', '}') {
        Some((a, b)) => text.substring_char(a, b + 1),
        None => text,
    }
}

/// The JSON array inside a reply: from the first `[` to the last `]`,
/// or the whole reply when there is no such pair.
pub fn extract_json_array(text: &str) -> (r: &str)
    ensures
        r@ == enclosed(text@, '[', ']'),
{
    let cs = chars_of(text);
    match enclosed_range(&cs, '[', ']') {
        Some((a, b)) => text.substring_char(a, b + 1),
        None => text,
    }
}

/// The trimmed reply cut from its first `{` to its last `}`; the reply
/// itself, trimmed, when it lacks either.
pub open spec fn json_in_reply(s: Seq<char>) -> Seq<char> {
    let t = trim(s);
    match (first_index(t, '{'), last_index(t, '}')) {
        (Some(a), Some(b)) => t.subrange(a, b + 1),
        _ => t,
    }
}

/// The JSON object of a summary reply: the trimmed reply from its first
/// `{` to its last `}`.
pub fn extract_json_from_response(response: &str) -> (r: String)
    requires
        !(first_index(trim(response@), '{') matches Some(a) && last_index(trim(response@), '}')
            matches Some(b) && b < a),
    ensures
        r@ == json_in_reply(response@),
{
    let cs = chars_of(response);
    let t = trim_chars(&cs);
    match first_index_exec(&t, '{') {
        Some(a) => match last_index_exec(&t, '}') {
            Some(b) => {
                assert(a <= b);
                let part = slice_chars(&t, a, b + 1);
                string_of(&part)
            },
            None => string_of(&t),
        },
        None => string_of(&t),
    }
}

} // verus!
