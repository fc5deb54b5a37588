//! Weather settings, and keeping the weather service's key out of logs.
use vstd::prelude::*;
use vstd::utf8::encode_utf8;
use crate::text::{append_chars, chars_of, find_from, occurs_at, slice_chars, string_of};

verus! {

/// The OpenWeather key and the city to report on.
#[derive(Clone, Debug)]
pub struct WeatherConfig {
    pub api_key: String,
    pub city: String,
}

impl Default for WeatherConfig {
    /// No key and no city.
    fn default() -> (c: Self)
        ensures
            c.api_key@ == Seq::<char>::empty(),
            c.city@ == Seq::<char>::empty(),
    {
        WeatherConfig { api_key: String::new(), city: String::new() }
    }
}

impl WeatherConfig {
    /// Both a key and a city are set.
    pub fn is_configured(&self) -> (b: bool)
        ensures
            b == (self.api_key@.len() > 0 && self.city@.len() > 0),
    {
        !self.api_key.as_str().is_empty() && !self.city.as_str().is_empty()
    }
}

/// The first index at or after `i` where `p` occurs in `s`.
pub open spec fn find_first(s: Seq<char>, p: Seq<char>, i: int) -> Option<int>
    decreases s.len() + 1 - i,
{
    if i < 0 || i > s.len() {
        None
    } else if occurs_at(s, p, i) {
        Some(i)
    } else {
        find_first(s, p, i + 1)
    }
}

/// `find_first` is the least index of an occurrence at or after `i`.
pub proof fn lemma_find_first(s: Seq<char>, p: Seq<char>, i: int, k: Option<int>)
    requires
        0 <= i,
        k matches Some(m) ==> i <= m && occurs_at(s, p, m) && forall|j: int|
            i <= j < m ==> !occurs_at(s, p, j),
        k is None ==> forall|j: int| i <= j ==> !occurs_at(s, p, j),
    ensures
        find_first(s, p, i) == k,
    decreases s.len() + 1 - i,
{
    if i > s.len() {
        if let Some(m) = k {
            assert(m + p.len() > s.len());
        }
    } else if occurs_at(s, p, i) {
        if let Some(m) = k {
            assert(m == i);
        }
    } else {
        lemma_find_first(s, p, i + 1, k);
    }
}

/// A found occurrence is an occurrence.
pub proof fn lemma_find_first_found(s: Seq<char>, p: Seq<char>, i: int)
    ensures
        find_first(s, p, i) matches Some(m) ==> occurs_at(s, p, m) && i <= m,
    decreases s.len() + 1 - i,
{
    if i < 0 || i > s.len() {
    } else if occurs_at(s, p, i) {
    } else {
        lemma_find_first_found(s, p, i + 1);
    }
}

/// A character that ends a query parameter: `&`, any white space, `)`,
/// `"` or `'`.
pub open spec fn is_param_delimiter(c: char) -> bool {
    c == '&' || crate::text::is_white_space(c) || c == ')' || c == '"' || c == '\''
}

/// The index of the first parameter delimiter at or after `i`, or the
/// length of `s` when there is none.
pub open spec fn delimiter_index(s: Seq<char>, i: int) -> int
    decreases s.len() - i,
{
    if i < 0 || i >= s.len() {
        s.len() as int
    } else if is_param_delimiter(s[i]) {
        i
    } else {
        delimiter_index(s, i + 1)
    }
}

/// `delimiter_index` stays within the text.
pub proof fn lemma_delimiter_index_bounds(s: Seq<char>, i: int)
    requires
        0 <= i <= s.len(),
    ensures
        i <= delimiter_index(s, i) <= s.len(),
    decreases s.len() - i,
{
    if i < s.len() && !is_param_delimiter(s[i]) {
        lemma_delimiter_index_bounds(s, i + 1);
    }
}

/// The text with the value of every `appid=` parameter replaced by
/// `****`: each value runs up to the next `&`, white space, `)`, quote or the
/// end.
pub open spec fn redacted(s: Seq<char>) -> Seq<char>
    decreases s.len(),
{
    match find_first(s, "appid="@, 0) {
        None => s,
        Some(pos) => {
            proof {
                lemma_find_first_found(s, "appid="@, 0);
                reveal_strlit("appid=");
            }
            let after = s.skip(pos + 6);
            let end = delimiter_index(after, 0);
            proof {
                lemma_delimiter_index_bounds(after, 0);
            }
            s.take(pos + 6) + "****"@ + redacted(after.skip(end))
        },
    }
}

fn delimiter_index_exec(s: &Vec<char>) -> (r: usize)
    ensures
        r == delimiter_index(s@, 0),
{
    let mut i: usize = 0;
    while i < s.len()
        invariant
            i <= s@.len(),
            delimiter_index(s@, 0) == delimiter_index(s@, i as int),
        decreases s@.len() - i,
    {
        let c = s[i];
        if c == '&' || crate::text::white_space(c) || c == ')' || c == '"' || c == '\'' {
            return i;
        }
        i = i + 1;
    }
    i
}

/// Masks the value of every `appid=` parameter with `****`, so that a
/// weather key never reaches a log; everything else is kept.
pub fn redact_appid(s: &str) -> (r: String)
    ensures
        r@ == redacted(s@),
{
    let key = chars_of("appid=");
    proof {
        reveal_strlit("appid=");
    }
    let mask = chars_of("****");
    let mut out: Vec<char> = Vec::new();
    let mut rest = chars_of(s);
    loop
        invariant
            key@ == "appid="@,
            key@.len() == 6,
            mask@ == "****"@,
            out@ + redacted(rest@) == redacted(s@),
        ensures
            out@ + rest@ == redacted(s@),
        decreases rest@.len(),
    {
        let found = find_from(&rest, &key, 0);
        proof {
            lemma_find_first(rest@, key@, 0, match found {
                Some(i) => Some(i as int),
                None => None,
            });
        }
        match found {
            None => {
                break ;
            },
            Some(pos) => {
                assert(pos + 6 <= rest@.len());
                assert(rest@.len() == rest.len());
                let head = slice_chars(&rest, 0, pos + 6);
                append_chars(&mut out, &head);
                append_chars(&mut out, &mask);
                let after = slice_chars(&rest, pos + 6, rest.len());
                let end = delimiter_index_exec(&after);
                proof {
                    lemma_delimiter_index_bounds(after@, 0);
                    assert(after@ =~= rest@.skip(pos + 6));
                    assert(head@ =~= rest@.take(pos + 6));
                }
                let next = slice_chars(&after, end, after.len());
                assert(next@ =~= after@.skip(end as int));
                rest = next;
            },
        }
    }
    append_chars(&mut out, &rest);
    string_of(&out)
}

/// No occurrence of `p` is found from `i` on when `find_first` finds none.
proof fn lemma_find_first_none(s: Seq<char>, p: Seq<char>, i: int)
    requires
        0 <= i,
        find_first(s, p, i) is None,
    ensures
        forall|j: int| i <= j ==> !occurs_at(s, p, j),
    decreases s.len() + 1 - i,
{
    if i <= s.len() && !occurs_at(s, p, i) {
        lemma_find_first_none(s, p, i + 1);
    }
}

/// `find_first` finds the first occurrence from `i` on.
proof fn lemma_find_first_least(s: Seq<char>, p: Seq<char>, i: int)
    requires
        0 <= i,
    ensures
        find_first(s, p, i) matches Some(m) ==> forall|j: int| i <= j < m ==> !occurs_at(s, p, j),
    decreases s.len() + 1 - i,
{
    if i <= s.len() && !occurs_at(s, p, i) {
        lemma_find_first_least(s, p, i + 1);
    }
}

/// Text that starts with a parameter delimiter keeps its first character
/// when it is redacted; empty text stays empty.
proof fn lemma_redacted_start(t: Seq<char>)
    ensures
        t.len() == 0 ==> redacted(t).len() == 0,
        t.len() > 0 && is_param_delimiter(t[0]) ==> redacted(t).len() > 0 && redacted(t)[0] == t[0],
{
    reveal_strlit("appid=");
    lemma_find_first_found(t, "appid="@, 0);
    if t.len() == 0 {
        assert(!occurs_at(t, "appid="@, 0));
        assert(find_first(t, "appid="@, 1) is None);
    } else if is_param_delimiter(t[0]) {
        assert(!occurs_at(t, "appid="@, 0)) by {
            if occurs_at(t, "appid="@, 0) {
                assert(t.subrange(0, 6)[0] == t[0]);
            }
        }
        match find_first(t, "appid="@, 0) {
            None => {},
            Some(pos) => {
                lemma_delimiter_index_bounds(t.skip(pos + 6), 0);
                assert(pos >= 1);
                assert(redacted(t)[0] == t.take(pos + 6)[0]);
            },
        }
    }
}

/// Every `appid=` left in a text is followed by the mask `****` and then
/// by a parameter delimiter or the end of the text.
pub open spec fn every_key_masked(t: Seq<char>) -> bool {
    forall|i: int|
        #[trigger] occurs_at(t, "appid="@, i) ==> i + 10 <= t.len() && t.subrange(i + 6, i + 10)
            == "****"@ && (i + 10 == t.len() || is_param_delimiter(t[i + 10]))
}

/// No key survives redaction: in redacted text, every `appid=` parameter
/// has the value `****` and nothing more.
pub proof fn law_redaction_masks_every_key(s: Seq<char>)
    ensures
        every_key_masked(redacted(s)),
    decreases s.len(),
{
    reveal_strlit("appid=");
    reveal_strlit("****");
    let key = "appid="@;
    lemma_find_first_found(s, key, 0);
    lemma_find_first_least(s, key, 0);
    match find_first(s, key, 0) {
        None => {
            lemma_find_first_none(s, key, 0);
        },
        Some(pos) => {
            let after = s.skip(pos + 6);
            lemma_delimiter_index_bounds(after, 0);
            let end = delimiter_index(after, 0);
            let t = after.skip(end);
            let r = redacted(t);
            let out = redacted(s);
            let a = s.take(pos + 6);
            assert(out == a + "****"@ + r);
            law_redaction_masks_every_key(t);
            lemma_redacted_start(t);
            if end < after.len() {
                lemma_delimiter_index_first(after, 0);
            }
            assert forall|i: int| #[trigger] occurs_at(out, key, i) implies i + 10 <= out.len()
                && out.subrange(i + 6, i + 10) == "****"@ && (i + 10 == out.len()
                || is_param_delimiter(out[i + 10])) by {
                assert(out.subrange(i, i + 6)[0] == out[i]);
                if i < pos {
                    assert(s.subrange(i, i + 6) =~= out.subrange(i, i + 6));
                    assert(occurs_at(s, key, i));
                } else if i == pos {
                    assert(out.subrange(i + 6, i + 10) =~= "****"@);
                    if r.len() > 0 {
                        assert(out[i + 10] == r[0]);
                    }
                } else if i < pos + 6 {
                    assert(s.subrange(pos, pos + 6)[i - pos] == s[i]);
                    assert(out[i] == s[i]);
                } else if i < pos + 10 {
                    assert(out[i] == '*');
                } else {
                    let k = i - (pos + 10);
                    assert(out.subrange(i, i + 6) =~= r.subrange(k, k + 6));
                    assert(occurs_at(r, key, k));
                    assert(out.subrange(i + 6, i + 10) =~= r.subrange(k + 6, k + 10));
                    if k + 10 < r.len() {
                        assert(out[i + 10] == r[k + 10]);
                    }
                }
            }
        },
    }
}

/// `delimiter_index` stops at a delimiter when it finds one.
proof fn lemma_delimiter_index_first(s: Seq<char>, i: int)
    requires
        0 <= i <= s.len(),
        delimiter_index(s, i) < s.len(),
    ensures
        is_param_delimiter(s[delimiter_index(s, i)]),
    decreases s.len() - i,
{
    if i < s.len() && !is_param_delimiter(s[i]) {
        lemma_delimiter_index_first(s, i + 1);
    }
}

/// A byte that URL encoding leaves as it is: an ASCII letter or digit, or
/// one of `-`, `.`, `_`, `~`.
pub open spec fn url_safe(b: u8) -> bool {
    (0x30 <= b <= 0x39) || (0x41 <= b <= 0x5A) || (0x61 <= b <= 0x7A) || b == 0x2D || b == 0x2E
        || b == 0x5F || b == 0x7E
}

/// The upper-case hexadecimal digit of a value below 16.
pub open spec fn hex_digit(d: u8) -> char {
    if d < 10 {
        (0x30 + d) as char
    } else {
        (0x41 - 10 + d) as char
    }
}

/// Percent-encoding of bytes: each safe byte as its character, every other
/// byte as `%` and two upper-case hexadecimal digits.
pub open spec fn percent_encoded(bytes: Seq<u8>) -> Seq<char>
    decreases bytes.len(),
{
    if bytes.len() == 0 {
        Seq::empty()
    } else {
        let b = bytes[0];
        let head = if url_safe(b) {
            seq![b as char]
        } else {
            seq!['%', hex_digit(b / 16), hex_digit(b % 16)]
        };
        head + percent_encoded(bytes.drop_first())
    }
}

/// `urlencoding::encode`: the UTF-8 bytes of the text, percent-encoded
/// (letters, digits and `-_.~` kept, every other byte as `%XX` with
/// upper-case hexadecimal digits), as the crate's source does it.
#[verifier::external_body]
fn url_encode(s: &str) -> (r: String)
    ensures
        r@ == percent_encoded(encode_utf8(s@)),
{
    urlencoding::encode(s).into_owned()
}

/// The OpenWeather request for the configured city, with the city
/// URL-encoded, Chinese descriptions and metric units.
pub open spec fn weather_url_text(config: WeatherConfig) -> Seq<char> {
    "https://api.openweathermap.org/data/2.5/weather?q="@ + percent_encoded(encode_utf8(config.city@))
        + "&appid="@ + config.api_key@ + "&lang=zh_cn&units=metric"@
}

/// The OpenWeather request for the configured city.
pub fn weather_url(config: &WeatherConfig) -> (u: String)
    ensures
        u@ == weather_url_text(*config),
{
    let mut u = "https://api.openweathermap.org/data/2.5/weather?q=".to_owned();
    u.append(url_encode(config.city.as_str()).as_str());
    u.append("&appid=");
    u.append(config.api_key.as_str());
    u.append("&lang=zh_cn&units=metric");
    u
}

/// How long fetched weather stays fresh, in seconds.
pub open spec fn weather_stale_secs() -> int {
    1800
}

/// Whether the weather should be fetched again: never fetched, or fetched
/// (at `last_fetch`, in milliseconds) at least 30 minutes before `now`.
pub fn weather_is_stale(last_fetch: Option<i64>, now: i64) -> (b: bool)
    ensures
        b == match last_fetch {
            Some(t) => crate::clock::seconds_between(t, now) >= weather_stale_secs(),
            None => true,
        },
{
    match last_fetch {
        Some(t) => crate::clock::elapsed_seconds(t, now) >= 1800,
        None => true,
    }
}

/// The message for a refused weather request: the HTTP status and the
/// reply.
pub fn weather_api_error(status: &str, body: &str) -> (m: String)
    ensures
        m@ == "天气API返回错误 "@ + status@ + ": "@ + body@,
{
    let mut m = "天气API返回错误 ".to_owned();
    m.append(status);
    m.append(": ");
    m.append(body);
    m
}

/// The weather's description: the first condition's, or `未知`.
pub fn weather_condition(first: Option<&str>) -> (c: String)
    ensures
        c@ == match first {
            Some(d) => d@,
            None => "未知"@,
        },
{
    match first {
        Some(d) => d.to_owned(),
        None => "未知".to_owned(),
    }
}

} // verus!
