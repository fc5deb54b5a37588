//! Endpoint handling of the OpenAI-compatible chat service: the request URLs
//! derived from a configured endpoint and the texts shown for failed calls.
use vstd::prelude::*;
use crate::text::{
    append_chars, chars_of, contains, contains_exec, decimal, decimal_chars, find_from, occurs_at,
    occurs_at_exec, slice_chars, string_of, trim, trim_chars, trim_start,
};
use crate::weather::{find_first, lemma_find_first, lemma_find_first_found};

verus! {

/// One message sent to the chat service.
#[derive(Clone, Debug)]
pub struct ChatMessage {
    pub role: String,
    pub content: String,
}

/// The connection settings of the chat, vision, image and speech services.
#[derive(Clone, Debug)]
pub struct AIProviderConfig {
    pub endpoint: String,
    pub api_key: String,
    pub model: String,
    pub vision_model: Option<String>,
    pub image_model: Option<String>,
    pub image_gen_endpoint: Option<String>,
    pub image_gen_api_key: Option<String>,
    pub is_default: bool,
    pub stt_endpoint: Option<String>,
    pub stt_api_key: Option<String>,
    pub stt_model: Option<String>,
}

/// `str::trim_end_matches(c)` for one character: every trailing `c` removed.
pub open spec fn trim_end_char(s: Seq<char>, c: char) -> Seq<char>
    decreases s.len(),
{
    if s.len() > 0 && s.last() == c {
        trim_end_char(s.drop_last(), c)
    } else {
        s
    }
}

/// `str::ends_with`.
pub open spec fn ends_with(s: Seq<char>, p: Seq<char>) -> bool {
    p.len() <= s.len() && s.subrange(s.len() - p.len(), s.len() as int) == p
}

/// `str::starts_with`.
pub open spec fn starts_with(s: Seq<char>, p: Seq<char>) -> bool {
    p.len() <= s.len() && s.subrange(0, p.len() as int) == p
}

/// An ASCII decimal digit.
pub open spec fn is_digit(c: char) -> bool {
    48 <= (c as u32) && (c as u32) <= 57
}

/// A version segment of `s` from `i` to `k` (exclusive): `/v` and then one
/// or more digits, as in `/v1`, `/v2`, `/v10`.
pub open spec fn version_segment_at(s: Seq<char>, i: int, k: int) -> bool {
    &&& 0 <= i
    &&& i + 2 < k <= s.len()
    &&& s[i] == '/'
    &&& s[i + 1] == 'v'
    &&& forall|j: int| i + 2 <= j < k ==> is_digit(#[trigger] s[j])
}

/// `s` ends with a version segment.
pub open spec fn ends_with_version(s: Seq<char>) -> bool {
    exists|i: int| version_segment_at(s, i, s.len() as int)
}

/// `s` holds a version segment followed by `/`, as in `.../v1/...`.
pub open spec fn holds_version_segment(s: Seq<char>) -> bool {
    exists|i: int, k: int| #[trigger] version_segment_at(s, i, k) && k < s.len() && s[k] == '/'
}

/// The URL of a service path under an endpoint: trailing slashes dropped;
/// used as is when it already ends with the path; the path appended when
/// the endpoint ends with a version segment (`/v1`, `/v2` and so on) or with
/// `/api`, or holds such a segment or `/api` followed by `/`; otherwise `/v1`
/// and the path appended.
pub open spec fn service_url(endpoint: Seq<char>, path: Seq<char>) -> Seq<char> {
    let base = trim_end_char(endpoint, '/');
    if ends_with(base, path) {
        base
    } else if ends_with_version(base) || ends_with(base, "/api"@) {
        base + path
    } else if holds_version_segment(base) || contains(base, "/api/"@) {
        base + path
    } else {
        base + "/v1"@ + path
    }
}

fn digit_exec(c: char) -> (b: bool)
    ensures
        b == is_digit(c),
{
    let u = c as u32;
    48 <= u && u <= 57
}

/// The end of the run of digits in `s` that starts at `from`.
fn digits_end(s: &Vec<char>, from: usize) -> (k: usize)
    requires
        from <= s@.len(),
    ensures
        from <= k <= s@.len(),
        forall|j: int| from <= j < k ==> is_digit(#[trigger] s@[j]),
        k == s@.len() || !is_digit(s@[k as int]),
{
    let mut k = from;
    while k < s.len() && digit_exec(s[k])
        invariant
            from <= k <= s@.len(),
            forall|j: int| from <= j < k ==> is_digit(#[trigger] s@[j]),
        decreases s@.len() - k,
    {
        k = k + 1;
    }
    k
}

fn ends_with_version_exec(s: &Vec<char>) -> (b: bool)
    ensures
        b == ends_with_version(s@),
{
    let n = s.len();
    let mut j = n;
    while j > 0 && digit_exec(s[j - 1])
        invariant
            j <= n == s@.len(),
            forall|t: int| j <= t < n ==> is_digit(#[trigger] s@[t]),
        decreases j,
    {
        j = j - 1;
    }
    let b = j < n && j >= 2 && s[j - 1] == 'v' && s[j - 2] == '/';
    proof {
        if b {
            assert(version_segment_at(s@, j - 2, n as int));
        } else if ends_with_version(s@) {
            let i = choose|i: int| version_segment_at(s@, i, s@.len() as int);
            if j < i + 2 {
                assert(is_digit(s@[i + 1]));
            }
            if j > i + 2 {
                assert(is_digit(s@[j - 1]));
            }
        }
    }
    b
}

fn holds_version_segment_exec(s: &Vec<char>) -> (b: bool)
    ensures
        b == holds_version_segment(s@),
{
    let n = s.len();
    let mut i: usize = 0;
    while n >= 2 && i < n - 2
        invariant
            n == s@.len(),
            i <= n,
            forall|a: int, k: int|
                0 <= a < i ==> !(#[trigger] version_segment_at(s@, a, k) && k < s@.len() && s@[k]
                    == '/'),
        decreases n - i,
    {
        if s[i] == '/' && s[i + 1] == 'v' {
            let k = digits_end(s, i + 2);
            if k > i + 2 && k < n && s[k] == '/' {
                assert(version_segment_at(s@, i as int, k as int));
                return true;
            }
            assert forall|k2: int| !(#[trigger] version_segment_at(s@, i as int, k2) && k2 < s@.len()
                && s@[k2] == '/') by {
                if version_segment_at(s@, i as int, k2) && k2 < s@.len() && s@[k2] == '/' {
                    if k2 < k {
                        assert(is_digit(s@[k2]));
                    } else if k2 > k {
                        assert(is_digit(s@[k as int]));
                    }
                }
            }
        }
        i = i + 1;
    }
    proof {
        assert forall|a: int, k: int| !(#[trigger] version_segment_at(s@, a, k) && k < s@.len()
            && s@[k] == '/') by {
            if version_segment_at(s@, a, k) && k < s@.len() && s@[k] == '/' {
                assert(a < i);
            }
        }
    }
    false
}

fn ends_with_exec(s: &Vec<char>, p: &Vec<char>) -> (b: bool)
    ensures
        b == ends_with(s@, p@),
{
    if p.len() > s.len() {
        return false;
    }
    let r = occurs_at_exec(s, p, s.len() - p.len());
    r
}

pub fn trim_end_char_exec(s: &Vec<char>, c: char) -> (r: Vec<char>)
    ensures
        r@ == trim_end_char(s@, c),
{
    let mut j: usize = s.len();
    assert(s@.subrange(0, j as int) =~= s@);
    while j > 0 && s[j - 1] == c
        invariant
            j <= s@.len(),
            trim_end_char(s@, c) == trim_end_char(s@.subrange(0, j as int), c),
        decreases j,
    {
        assert(s@.subrange(0, j as int).drop_last() =~= s@.subrange(0, j - 1));
        j = j - 1;
    }
    slice_chars(s, 0, j)
}

fn service_url_exec(endpoint: &str, path: &str) -> (r: String)
    ensures
        r@ == service_url(endpoint@, path@),
{
    let e = chars_of(endpoint);
    let p = chars_of(path);
    let base = trim_end_char_exec(&e, '/');
    let api = chars_of("/api");
    let apis = chars_of("/api/");
    let mut out = string_of(&base);
    if ends_with_exec(&base, &p) {
        out
    } else if ends_with_version_exec(&base) || ends_with_exec(&base, &api) {
        out.append(path);
        out
    } else if holds_version_segment_exec(&base) || contains_exec(&base, &apis) {
        out.append(path);
        out
    } else {
        out.append("/v1");
        out.append(path);
        out
    }
}

/// The chat-completions URL of an endpoint.
pub fn build_chat_url(endpoint: &str) -> (r: String)
    ensures
        r@ == service_url(endpoint@, "/chat/completions"@),
{
    service_url_exec(endpoint, "/chat/completions")
}

/// The image-generation URL of an endpoint.
pub fn build_image_url(endpoint: &str) -> (r: String)
    ensures
        r@ == service_url(endpoint@, "/images/generations"@),
{
    service_url_exec(endpoint, "/images/generations")
}

/// A service URL is its own endpoint: building the URL again from it gives
/// it back unchanged.
pub proof fn law_service_url_idempotent(endpoint: Seq<char>, path: Seq<char>)
    requires
        path.len() > 0,
        path.last() != '/',
        path[0] == '/',
    ensures
        service_url(service_url(endpoint, path), path) == service_url(endpoint, path),
{
    let base = trim_end_char(endpoint, '/');
    lemma_trim_end_char_last(endpoint, '/');
    let u = service_url(endpoint, path);
    reveal_strlit("/v1");
    assert(u.len() > 0 && u.last() != '/') by {
        if ends_with(base, path) {
            assert(base.last() == base.subrange(base.len() - path.len(), base.len() as int).last());
        } else if ends_with_version(base) || ends_with(base, "/api"@) {
            assert((base + path).last() == path.last());
        } else if holds_version_segment(base) || contains(base, "/api/"@) {
            assert((base + path).last() == path.last());
        } else {
            assert((base + "/v1"@ + path).last() == path.last());
        }
    }
    assert(trim_end_char(u, '/') == u);
    assert(ends_with(u, path)) by {
        if ends_with(base, path) {
        } else if ends_with_version(base) || ends_with(base, "/api"@) {
            assert((base + path).subrange(base.len() as int, (base + path).len() as int) =~= path);
        } else if holds_version_segment(base) || contains(base, "/api/"@) {
            assert((base + path).subrange(base.len() as int, (base + path).len() as int) =~= path);
        } else {
            let w = base + "/v1"@;
            assert((w + path).subrange(w.len() as int, (w + path).len() as int) =~= path);
        }
    }
}

/// After trimming a character from the end, the text does not end with it.
pub proof fn lemma_trim_end_char_last(s: Seq<char>, c: char)
    ensures
        trim_end_char(s, c).len() > 0 ==> trim_end_char(s, c).last() != c,
    decreases s.len(),
{
    if s.len() > 0 && s.last() == c {
        lemma_trim_end_char_last(s.drop_last(), c);
    }
}

/// `s` when it has at most `max` characters, else its first `max`
/// characters followed by `...`.
pub open spec fn truncated(s: Seq<char>, max: nat) -> Seq<char> {
    if s.len() <= max {
        s
    } else {
        s.take(max as int) + "..."@
    }
}

/// Shortens a text to `max_chars` characters, marking the cut with `...`.
pub fn truncate_str(s: &str, max_chars: usize) -> (r: String)
    ensures
        r@ == truncated(s@, max_chars as nat),
{
    let cs = chars_of(s);
    if cs.len() <= max_chars {
        s.to_owned()
    } else {
        let head = slice_chars(&cs, 0, max_chars);
        let mut r = string_of(&head);
        r.append("...");
        r
    }
}

/// What the `error` field of a JSON error body held.
pub enum JsonErrorField {
    /// `error.message`, a string.
    Message(String),
    /// The whole `error` value, rendered as JSON, when it has no string
    /// `message`.
    Other(String),
}

/// The advice given when the service answers with an HTML page.
pub open spec fn html_error_advice() -> Seq<char> {
    "服务器返回了 HTML 页面而非 JSON，通常是 Endpoint 路径有误。\n请检查 Endpoint 是否需要加 /v1 后缀（例如 https://api.example.com/v1），\n当前拼接后会请求 /chat/completions。"@
}

/// What a JSON error field holds, as plain values: `(true, m)` for a
/// string `message` `m`, `(false, v)` for the rendered `error` value `v`.
pub open spec fn field_view(field: Option<JsonErrorField>) -> Option<(bool, Seq<char>)> {
    match field {
        Some(JsonErrorField::Message(m)) => Some((true, m@)),
        Some(JsonErrorField::Other(v)) => Some((false, v@)),
        None => None,
    }
}

/// The error text shown for a failed call: advice about the endpoint when
/// the body is an HTML page; else the JSON error's message, or the error
/// value itself; else the body cut to 300 characters.
pub open spec fn error_description(body: Seq<char>, field: Option<(bool, Seq<char>)>) -> Seq<char> {
    let t = trim_start(body);
    if starts_with(t, "<!DOCTYPE"@) || starts_with(t, "<html"@) || starts_with(t, "<HTML"@) {
        html_error_advice()
    } else {
        match field {
            Some((_, m)) => m,
            None => truncated(body, 300),
        }
    }
}

/// What `serde_json` finds in an error body: `Some((true, m))` when it is
/// JSON whose `error.message` is the string `m`, `Some((false, v))` when it
/// has an `error` value rendered as `v` but no such message, `None`
/// otherwise.
pub uninterp spec fn json_error_field(body: Seq<char>) -> Option<(bool, Seq<char>)>;

/// Parses an error body with `serde_json::from_str::<Value>` and reads its
/// `error` field; the result is named `json_error_field` of the body (JSON
/// parsing and rendering are not written out here).
#[verifier::external_body]
fn parse_json_error_field(body: &str) -> (r: Option<JsonErrorField>)
    ensures
        field_view(r) == json_error_field(body@),
{
    let json: serde_json::Value = serde_json::from_str(body).ok()?;
    let error = json.get("error")?;
    match error.get("message").and_then(|m| m.as_str()) {
        Some(m) => Some(JsonErrorField::Message(m.to_owned())),
        None => Some(JsonErrorField::Other(error.to_string())),
    }
}

/// The error text shown for a failed call whose body is `response_text`.
pub fn extract_error_message(response_text: &str) -> (r: String)
    ensures
        r@ == error_description(response_text@, json_error_field(response_text@)),
{
    let field = parse_json_error_field(response_text);
    describe_error_body(response_text, field)
}

fn starts_with_exec(s: &Vec<char>, p: &Vec<char>) -> (b: bool)
    ensures
        b == starts_with(s@, p@),
{
    occurs_at_exec(s, p, 0)
}

fn trim_start_chars(s: &Vec<char>) -> (r: Vec<char>)
    ensures
        r@ == trim_start(s@),
{
    let n = s.len();
    let mut i: usize = 0;
    assert(s@.skip(0) =~= s@);
    while i < n && crate::text::white_space(s[i])
        invariant
            n == s@.len(),
            i <= n,
            trim_start(s@) == trim_start(s@.skip(i as int)),
        decreases n - i,
    {
        assert(s@.skip(i as int).drop_first() =~= s@.skip(i + 1));
        i = i + 1;
    }
    assert(s@.skip(i as int) =~= s@.subrange(i as int, n as int));
    slice_chars(s, i, n)
}

/// The error text shown for a failed call, given the body and what its
/// JSON `error` field held (if the body is JSON with such a field).
pub fn describe_error_body(response_text: &str, error_field: Option<JsonErrorField>) -> (r: String)
    ensures
        r@ == error_description(response_text@, field_view(error_field)),
{
    let cs = chars_of(response_text);
    let t = trim_start_chars(&cs);
    let a = chars_of("<!DOCTYPE");
    let b = chars_of("<html");
    let c = chars_of("<HTML");
    if starts_with_exec(&t, &a) || starts_with_exec(&t, &b) || starts_with_exec(&t, &c) {
        return "服务器返回了 HTML 页面而非 JSON，通常是 Endpoint 路径有误。\n请检查 Endpoint 是否需要加 /v1 后缀（例如 https://api.example.com/v1），\n当前拼接后会请求 /chat/completions。".to_owned();
    }
    match error_field {
        Some(JsonErrorField::Message(m)) => m,
        Some(JsonErrorField::Other(v)) => v,
        None => truncate_str(response_text, 300),
    }
}

/// The payload of a streamed (server-sent events) line, trimmed: `None`
/// for an empty line, a comment (starting with `:`) or a line that is not
/// a `data` field; else what follows `data: `, or follows `data:` with
/// leading white space removed.
pub open spec fn sse_data(line: Seq<char>) -> Option<Seq<char>> {
    let t = trim(line);
    if t.len() == 0 || t[0] == ':' {
        None
    } else if starts_with(t, "data: "@) {
        Some(t.skip(6))
    } else if starts_with(t, "data:"@) {
        Some(trim_start(t.skip(5)))
    } else {
        None
    }
}

/// The text a streamed chunk adds to the reply, as `serde_json` reads it:
/// `choices[0].delta.content` when the payload is JSON and that field is a
/// string.
pub uninterp spec fn stream_delta(data: Seq<char>) -> Option<Seq<char>>;

/// Parses a streamed payload with `serde_json::from_str::<Value>` and
/// reads `choices[0].delta.content`; the result is named `stream_delta`
/// of the payload (JSON parsing is not written out here).
#[verifier::external_body]
fn parse_stream_delta(data: &str) -> (r: Option<String>)
    ensures
        match r {
            Some(t) => stream_delta(data@) == Some(t@),
            None => stream_delta(data@) is None,
        },
{
    let json: serde_json::Value = serde_json::from_str(data).ok()?;
    json["choices"][0]["delta"]["content"].as_str().map(|c| c.to_owned())
}

/// What one streamed line means: nothing, the end of the reply, or a piece
/// of the reply.
pub enum LineOutcome {
    Skip,
    Done,
    Token(Seq<char>),
}

/// What one streamed line means. `[DONE]` ends the reply; a payload whose
/// delta is a non-empty text adds that text; anything else is skipped
/// (the reasoning of thinking models among it).
pub open spec fn line_outcome(line: Seq<char>) -> LineOutcome {
    match sse_data(line) {
        None => LineOutcome::Skip,
        Some(d) => if d == "[DONE]"@ {
            LineOutcome::Done
        } else {
            match stream_delta(d) {
                Some(c) => if c.len() > 0 {
                    LineOutcome::Token(c)
                } else {
                    LineOutcome::Skip
                },
                None => LineOutcome::Skip,
            }
        },
    }
}

/// The complete lines in `buffer` processed in order: what is left of the
/// buffer, the pieces of reply found, and whether the end was reached
/// (processing stops there).
pub open spec fn drain_lines(buffer: Seq<char>) -> (Seq<char>, Seq<Seq<char>>, bool)
    decreases buffer.len(),
{
    match find_first(buffer, seq!['\n'], 0) {
        None => (buffer, Seq::empty(), false),
        Some(k) => {
            proof {
                lemma_find_first_found(buffer, seq!['\n'], 0);
            }
            let rest = buffer.skip(k + 1);
            match line_outcome(buffer.take(k)) {
                LineOutcome::Done => (rest, Seq::empty(), true),
                LineOutcome::Skip => drain_lines(rest),
                LineOutcome::Token(c) => {
                    let (left, tokens, done) = drain_lines(rest);
                    (left, seq![c] + tokens, done)
                },
            }
        },
    }
}

/// The concatenation of the pieces of reply.
pub open spec fn concat(pieces: Seq<Seq<char>>) -> Seq<char>
    decreases pieces.len(),
{
    if pieces.len() == 0 {
        Seq::empty()
    } else {
        pieces[0] + concat(pieces.drop_first())
    }
}

/// Reassembles a streamed chat reply from the chunks of text received: the
/// text not yet ending in a line break, the reply so far, and whether the
/// stream announced its end.
pub struct StreamDecoder {
    pub buffer: String,
    pub full_response: String,
    pub done: bool,
}

/// What feeding a chunk gave: the pieces of reply to show, in order, and
/// whether the reply is complete.
pub struct StreamStep {
    pub tokens: Vec<String>,
    pub done: bool,
}

impl StreamDecoder {
    /// A decoder that has received nothing.
    pub fn new() -> (d: Self)
        ensures
            d.buffer@ == Seq::<char>::empty(),
            d.full_response@ == Seq::<char>::empty(),
            !d.done,
    {
        StreamDecoder { buffer: String::new(), full_response: String::new(), done: false }
    }

    /// Takes the next chunk of streamed text: processes every complete
    /// line, in order, until the end is announced. The pieces of reply found
    /// are returned and added to the reply; the text after the last line
    /// break is kept for the next chunk.
    pub fn feed(&mut self, chunk: &str) -> (step: StreamStep)
        requires
            !old(self).done,
        ensures
            ({
                let (left, tokens, done) = drain_lines(old(self).buffer@ + chunk@);
                &&& final(self).buffer@ == left
                &&& crate::text::string_views(step.tokens@) == tokens
                &&& final(self).full_response@ == old(self).full_response@ + concat(tokens)
                &&& step.done == done
                &&& final(self).done == done
            }),
    {
        let mut buf = chars_of(self.buffer.as_str());
        let incoming = chars_of(chunk);
        append_chars(&mut buf, &incoming);
        let ghost start = buf@;
        let mut full = chars_of(self.full_response.as_str());
        let ghost full0 = full@;
        let mut tokens: Vec<String> = Vec::new();
        let mut done = false;
        let mut nl: Vec<char> = Vec::new();
        nl.push('\n');
        assert(nl@ =~= seq!['\n']);
        proof {
            reveal_strlit("[DONE]");
            reveal_strlit("data: ");
            reveal_strlit("data:");
        }
        let done_word = chars_of("[DONE]");
        let data_sp = chars_of("data: ");
        let data_nsp = chars_of("data:");
        loop
            invariant_except_break
                !done,
                nl@ == seq!['\n'],
                done_word@ == "[DONE]"@,
                data_sp@ == "data: "@,
                data_nsp@ == "data:"@,
                data_sp@.len() == 6,
                data_nsp@.len() == 5,
                ({
                    let (left, ts, d) = drain_lines(buf@);
                    let (left0, ts0, d0) = drain_lines(start);
                    &&& left == left0
                    &&& d == d0
                    &&& crate::text::string_views(tokens@) + ts == ts0
                    &&& full@ == full0 + concat(crate::text::string_views(tokens@))
                }),
            ensures
                ({
                    let (left0, ts0, d0) = drain_lines(start);
                    &&& buf@ == left0
                    &&& crate::text::string_views(tokens@) == ts0
                    &&& full@ == full0 + concat(ts0)
                    &&& done == d0
                }),
            decreases buf@.len(),
        {
            let found = find_from(&buf, &nl, 0);
            proof {
                lemma_find_first(buf@, nl@, 0, match found {
                    Some(i) => Some(i as int),
                    None => None,
                });
            }
            match found {
                None => {
                    proof {
                        assert(crate::text::string_views(tokens@) + Seq::<Seq<char>>::empty() =~= crate::text::string_views(tokens@));
                    }
                    break;
                },
                Some(k) => {
                    proof {
                        lemma_find_first_found(buf@, nl@, 0);
                    }
                    let line = slice_chars(&buf, 0, k);
                    let n = buf.len();
                    let rest = slice_chars(&buf, k + 1, n);
                    let ghost old_buf = buf@;
                    assert(line@ =~= old_buf.take(k as int));
                    assert(rest@ =~= old_buf.skip(k + 1));
                    buf = rest;
                    let t = trim_chars(&line);
                    let payload: Option<Vec<char>> = if t.len() == 0 || t[0] == ':' {
                        None
                    } else if occurs_at_exec(&t, &data_sp, 0) {
                        let m = t.len();
                        Some(slice_chars(&t, 6, m))
                    } else if occurs_at_exec(&t, &data_nsp, 0) {
                        let m = t.len();
                        let after = slice_chars(&t, 5, m);
                        Some(trim_start_chars(&after))
                    } else {
                        None
                    };
                    proof {
                        assert(match payload {
                            Some(p) => sse_data(line@) == Some(p@),
                            None => sse_data(line@) is None,
                        }) by {
                            if t@.len() > 0 && t@[0] != ':' && occurs_at(t@, data_sp@, 0) {
                                assert(t@.subrange(6, t@.len() as int) =~= t@.skip(6));
                            }
                            if t@.len() > 0 && t@[0] != ':' && !occurs_at(t@, data_sp@, 0) && occurs_at(t@, data_nsp@, 0) {
                                assert(t@.subrange(5, t@.len() as int) =~= t@.skip(5));
                            }
                        }
                    }
                    match payload {
                        None => {},
                        Some(d) => {
                            if crate::text::chars_equal(&d, &done_word) {
                                done = true;
                                proof {
                                    assert(crate::text::string_views(tokens@) + Seq::<Seq<char>>::empty() =~= crate::text::string_views(tokens@));
                                }
                                break;
                            }
                            let ds = string_of(&d);
                            match parse_stream_delta(ds.as_str()) {
                                Some(c) => {
                                    if !c.as_str().is_empty() {
                                        let cc = chars_of(c.as_str());
                                        let ghost before_tokens = crate::text::string_views(tokens@);
                                        let ghost before_full = full@;
                                        append_chars(&mut full, &cc);
                                        tokens.push(c);
                                        proof {
                                            assert(crate::text::string_views(tokens@) =~= before_tokens.push(cc@));
                                            lemma_concat_push(before_tokens, cc@);
                                            assert(before_tokens.push(cc@) =~= before_tokens + seq![cc@]);
                                        }
                                    }
                                },
                                None => {},
                            }
                        },
                    }
                },
            }
        }
        self.buffer = string_of(&buf);
        self.full_response = string_of(&full);
        self.done = done;
        StreamStep { tokens, done }
    }
}

proof fn lemma_concat_push(pieces: Seq<Seq<char>>, c: Seq<char>)
    ensures
        concat(pieces.push(c)) == concat(pieces) + c,
    decreases pieces.len(),
{
    if pieces.len() == 0 {
        assert(pieces.push(c).drop_first() =~= Seq::<Seq<char>>::empty());
        assert(pieces.push(c)[0] == c);
        assert(concat(Seq::<Seq<char>>::empty()) =~= Seq::<char>::empty());
        assert(concat(pieces.push(c)) == c + concat(Seq::<Seq<char>>::empty()));
        assert(concat(pieces.push(c)) =~= concat(pieces) + c);
    } else {
        lemma_concat_push(pieces.drop_first(), c);
        assert(pieces.push(c).drop_first() =~= pieces.drop_first().push(c));
        assert(pieces.push(c)[0] == pieces[0]);
        assert(concat(pieces.push(c)) == pieces[0] + concat(pieces.drop_first().push(c)));
        assert(concat(pieces.push(c)) =~= concat(pieces) + c);
    }
}

/// The kind of request made to the service, which names it in error
/// messages.
#[derive(Clone, Copy, Debug, PartialEq, Eq, Structural)]
pub enum ApiCall {
    Chat,
    Stream,
    Vision,
    Image,
}

/// How an error of each kind of request is introduced.
pub open spec fn api_error_prefix(call: ApiCall) -> Seq<char> {
    match call {
        ApiCall::Chat => "AI API 错误"@,
        ApiCall::Stream => "AI API 流式错误"@,
        ApiCall::Vision => "AI 视觉 API 错误"@,
        ApiCall::Image => "生图 API 错误"@,
    }
}

/// The message for a request that the service refused with HTTP status
/// `status`: the kind of request, the status, the error read from the body
/// and the URL.
pub open spec fn api_error_text(call: ApiCall, status: u16, body: Seq<char>, url: Seq<char>) -> Seq<char> {
    api_error_prefix(call) + " ["@ + decimal(status as nat) + "]: "@ + error_description(
        body,
        json_error_field(body),
    ) + " (URL: "@ + url + ")"@
}

/// The message for a request that the service refused.
pub fn api_error_message(call: ApiCall, status: u16, body: &str, url: &str) -> (s: String)
    ensures
        s@ == api_error_text(call, status, body@, url@),
{
    let mut s = match call {
        ApiCall::Chat => "AI API 错误".to_owned(),
        ApiCall::Stream => "AI API 流式错误".to_owned(),
        ApiCall::Vision => "AI 视觉 API 错误".to_owned(),
        ApiCall::Image => "生图 API 错误".to_owned(),
    };
    s.append(" [");
    s.append(string_of(&decimal_chars(status as u64)).as_str());
    s.append("]: ");
    s.append(extract_error_message(body).as_str());
    s.append(" (URL: ");
    s.append(url);
    s.append(")");
    s
}

/// The message for a missing API key.
pub open spec fn missing_key_text(call: ApiCall) -> Seq<char> {
    match call {
        ApiCall::Chat | ApiCall::Stream => "API Key 为空，请在「配置 AI 接口」中填写您的 API Key"@,
        _ => "API Key 为空，请先配置 AI 接口"@,
    }
}

/// Refuses a request whose API key is blank.
pub fn check_api_key(api_key: &str, call: ApiCall) -> (r: Result<(), String>)
    ensures
        trim(api_key@).len() > 0 ==> r is Ok,
        trim(api_key@).len() == 0 ==> (r matches Err(e) && e@ == missing_key_text(call)),
{
    let cs = chars_of(api_key);
    if trim_chars(&cs).len() == 0 {
        match call {
            ApiCall::Chat | ApiCall::Stream => Err(
                "API Key 为空，请在「配置 AI 接口」中填写您的 API Key".to_owned(),
            ),
            _ => Err("API Key 为空，请先配置 AI 接口".to_owned()),
        }
    } else {
        Ok(())
    }
}

/// The messages sent with a request: the system prompt, then the
/// conversation.
pub fn request_messages(system_prompt: &str, messages: &Vec<ChatMessage>) -> (r: Vec<ChatMessage>)
    ensures
        r@.len() == messages@.len() + 1,
        r@[0].role@ == "system"@,
        r@[0].content@ == system_prompt@,
        forall|i: int|
            0 <= i < messages@.len() ==> #[trigger] r@[i + 1].role@ == messages@[i].role@
                && r@[i + 1].content@ == messages@[i].content@,
{
    let mut r: Vec<ChatMessage> = Vec::new();
    r.push(ChatMessage { role: "system".to_owned(), content: system_prompt.to_owned() });
    let mut i: usize = 0;
    while i < messages.len()
        invariant
            i <= messages@.len(),
            r@.len() == i + 1,
            r@[0].role@ == "system"@,
            r@[0].content@ == system_prompt@,
            forall|k: int|
                0 <= k < i ==> #[trigger] r@[k + 1].role@ == messages@[k].role@ && r@[k + 1].content@
                    == messages@[k].content@,
        decreases messages@.len() - i,
    {
        r.push(ChatMessage { role: messages[i].role.clone(), content: messages[i].content.clone() });
        i = i + 1;
    }
    r
}

/// The model used for pictures: the configured vision model, else the chat
/// model.
pub fn vision_model(config: &AIProviderConfig) -> (m: String)
    ensures
        m@ == match config.vision_model {
            Some(v) => v@,
            None => config.model@,
        },
{
    match &config.vision_model {
        Some(v) => v.clone(),
        None => config.model.clone(),
    }
}

/// The model, endpoint and key of image generation: the image settings
/// where given, else `dall-e-3` and the chat endpoint and key.
pub fn image_settings(config: &AIProviderConfig) -> (r: (String, String, String))
    ensures
        r.0@ == match config.image_model {
            Some(v) => v@,
            None => "dall-e-3"@,
        },
        r.1@ == match config.image_gen_endpoint {
            Some(v) => v@,
            None => config.endpoint@,
        },
        r.2@ == match config.image_gen_api_key {
            Some(v) => v@,
            None => config.api_key@,
        },
{
    let model = match &config.image_model {
        Some(v) => v.clone(),
        None => "dall-e-3".to_owned(),
    };
    let endpoint = match &config.image_gen_endpoint {
        Some(v) => v.clone(),
        None => config.endpoint.clone(),
    };
    let key = match &config.image_gen_api_key {
        Some(v) => v.clone(),
        None => config.api_key.clone(),
    };
    (model, endpoint, key)
}

/// What `serde_json` reads from a chat reply: `choices[0].message.content`
/// and `choices[0].message.reasoning_content` where they are strings, or
/// the parse error's message when the body is not JSON.
pub uninterp spec fn reply_fields(body: Seq<char>) -> Result<(Option<Seq<char>>, Option<Seq<char>>), Seq<char>>;

/// Parses a chat reply with `serde_json::from_str::<Value>` and reads its
/// content fields; the result is named `reply_fields` of the body (JSON
/// parsing and its error messages are not written out here).
#[verifier::external_body]
fn parse_reply_fields(body: &str) -> (r: Result<(Option<String>, Option<String>), String>)
    ensures
        match r {
            Ok((c, t)) => reply_fields(body@) == Ok::<(Option<Seq<char>>, Option<Seq<char>>), Seq<char>>((opt_str_view(c), opt_str_view(t))),
            Err(e) => reply_fields(body@) == Err::<(Option<Seq<char>>, Option<Seq<char>>), Seq<char>>(e@),
        },
{
    let json: serde_json::Value = serde_json::from_str(body).map_err(|e| e.to_string())?;
    let message = &json["choices"][0]["message"];
    Ok((message["content"].as_str().map(|s| s.to_owned()), message["reasoning_content"].as_str().map(|s| s.to_owned())))
}

/// The view of an optional string.
pub open spec fn opt_str_view(s: Option<String>) -> Option<Seq<char>> {
    match s {
        Some(t) => Some(t@),
        None => None,
    }
}

/// The message for a reply that is not JSON.
pub open spec fn unparsable_reply_text(error: Seq<char>, body: Seq<char>) -> Seq<char> {
    "解析JSON失败: "@ + error + "\n原始响应: "@ + truncated(body, 500)
}

/// The message for a reply without content.
pub open spec fn contentless_reply_text(call: ApiCall, body: Seq<char>) -> Seq<char> {
    match call {
        ApiCall::Vision => "AI 视觉响应格式异常\n响应: "@ + truncated(body, 500),
        _ => "AI 响应格式异常，未找到 content 字段\n响应: "@ + truncated(body, 500),
    }
}

/// The text of a chat reply whose content fields were read as `fields`:
/// the content when not empty, else the reasoning of a thinking model; an
/// error when the body was not JSON or holds neither.
pub open spec fn reply_text_of(
    call: ApiCall,
    body: Seq<char>,
    fields: Result<(Option<Seq<char>>, Option<Seq<char>>), Seq<char>>,
) -> Result<Seq<char>, Seq<char>> {
    match fields {
        Err(e) => Err(unparsable_reply_text(e, body)),
        Ok((content, reasoning)) => match content {
            Some(c) if c.len() > 0 => Ok(c),
            _ => match reasoning {
                Some(t) => Ok(t),
                None => Err(contentless_reply_text(call, body)),
            },
        },
    }
}

/// The text of a chat reply, from what `serde_json` reads from it.
pub open spec fn reply_text(call: ApiCall, body: Seq<char>) -> Result<Seq<char>, Seq<char>> {
    reply_text_of(call, body, reply_fields(body))
}

/// The view of two optional strings read from a body, or of the error met
/// reading it.
pub open spec fn fields_view(f: Result<(Option<String>, Option<String>), String>) -> Result<
    (Option<Seq<char>>, Option<Seq<char>>),
    Seq<char>,
> {
    match f {
        Ok((a, b)) => Ok((opt_str_view(a), opt_str_view(b))),
        Err(e) => Err(e@),
    }
}

/// The view of a result of strings.
pub open spec fn result_view(r: Result<String, String>) -> Result<Seq<char>, Seq<char>> {
    match r {
        Ok(t) => Ok(t@),
        Err(e) => Err(e@),
    }
}

/// Reads the text of a successful chat reply.
pub fn reply_content(call: ApiCall, body: &str) -> (r: Result<String, String>)
    ensures
        result_view(r) == reply_text(call, body@),
{
    let fields = parse_reply_fields(body);
    reply_content_of(call, body, fields)
}

/// The text of a chat reply `body` whose content fields were read as
/// `fields` (the parse error's message where it was not JSON).
pub fn reply_content_of(
    call: ApiCall,
    body: &str,
    fields: Result<(Option<String>, Option<String>), String>,
) -> (r: Result<String, String>)
    ensures
        result_view(r) == reply_text_of(call, body@, fields_view(fields)),
{
    match fields {
        Err(e) => {
            let mut m = "解析JSON失败: ".to_owned();
            m.append(e.as_str());
            m.append("\n原始响应: ");
            m.append(truncate_str(body, 500).as_str());
            Err(m)
        },
        Ok((content, reasoning)) => {
            match content {
                Some(c) if !c.as_str().is_empty() => Ok(c),
                _ => match reasoning {
                    Some(t) => Ok(t),
                    None => {
                        let mut m = match call {
                            ApiCall::Vision => "AI 视觉响应格式异常\n响应: ".to_owned(),
                            _ => "AI 响应格式异常，未找到 content 字段\n响应: ".to_owned(),
                        };
                        m.append(truncate_str(body, 500).as_str());
                        Err(m)
                    },
                },
            }
        },
    }
}

/// What `serde_json` reads from an image reply: `data[0].b64_json` and
/// `data[0].url` where they are strings, or the parse error's message when
/// the body is not JSON.
pub uninterp spec fn image_reply_fields(body: Seq<char>) -> Result<(Option<Seq<char>>, Option<Seq<char>>), Seq<char>>;

/// Parses an image reply with `serde_json::from_str::<Value>` and reads its
/// picture fields; the result is named `image_reply_fields` of the body.
#[verifier::external_body]
fn parse_image_reply_fields(body: &str) -> (r: Result<(Option<String>, Option<String>), String>)
    ensures
        match r {
            Ok((b, u)) => image_reply_fields(body@) == Ok::<(Option<Seq<char>>, Option<Seq<char>>), Seq<char>>((opt_str_view(b), opt_str_view(u))),
            Err(e) => image_reply_fields(body@) == Err::<(Option<Seq<char>>, Option<Seq<char>>), Seq<char>>(e@),
        },
{
    let json: serde_json::Value = serde_json::from_str(body).map_err(|e| e.to_string())?;
    let item = &json["data"][0];
    Ok((item["b64_json"].as_str().map(|s| s.to_owned()), item["url"].as_str().map(|s| s.to_owned())))
}

/// The picture of an image reply whose fields were read as `fields`: the
/// base64 data, else `url:` and the picture's address; an error when the
/// body was not JSON or holds neither.
pub open spec fn image_reply_text_of(
    body: Seq<char>,
    fields: Result<(Option<Seq<char>>, Option<Seq<char>>), Seq<char>>,
) -> Result<Seq<char>, Seq<char>> {
    match fields {
        Err(e) => Err(unparsable_reply_text(e, body)),
        Ok((b64, url)) => match b64 {
            Some(b) => Ok(b),
            None => match url {
                Some(u) => Ok("url:"@ + u),
                None => Err("生图响应格式异常\n响应: "@ + truncated(body, 500)),
            },
        },
    }
}

/// The picture of an image reply, from what `serde_json` reads from it.
pub open spec fn image_reply_text(body: Seq<char>) -> Result<Seq<char>, Seq<char>> {
    image_reply_text_of(body, image_reply_fields(body))
}

/// Reads the picture from a successful image reply.
pub fn image_content(body: &str) -> (r: Result<String, String>)
    ensures
        result_view(r) == image_reply_text(body@),
{
    let fields = parse_image_reply_fields(body);
    image_content_of(body, fields)
}

/// The picture of an image reply `body` whose fields were read as `fields`
/// (the parse error's message where it was not JSON).
pub fn image_content_of(body: &str, fields: Result<(Option<String>, Option<String>), String>) -> (r:
    Result<String, String>)
    ensures
        result_view(r) == image_reply_text_of(body@, fields_view(fields)),
{
    match fields {
        Err(e) => {
            let mut m = "解析JSON失败: ".to_owned();
            m.append(e.as_str());
            m.append("\n原始响应: ");
            m.append(truncate_str(body, 500).as_str());
            Err(m)
        },
        Ok((b64, url)) => match b64 {
            Some(b) => Ok(b),
            None => match url {
                Some(u) => {
                    let mut m = "url:".to_owned();
                    m.append(u.as_str());
                    Ok(m)
                },
                None => {
                    let mut m = "生图响应格式异常\n响应: ".to_owned();
                    m.append(truncate_str(body, 500).as_str());
                    Err(m)
                },
            },
        },
    }
}

} // verus!
