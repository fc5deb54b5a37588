//! Reading imported documents: plain text (UTF-8, else GBK) and `.docx`
//! files, their word counts, and keyword search with surrounding context.
use vstd::prelude::*;
use vstd::utf8::{decode_utf8, encode_scalar, encode_utf8, valid_utf8};
use crate::text::{
    chars_of, chars_equal, contains, find_from, occurs_at, occurs_at_exec, slice_chars, string_of, trim,
    trim_chars,
};

verus! {

broadcast use vstd::string::group_string_axioms;

/// A document read from disk: its title (the file name without extension),
/// its type (`txt` or `docx`), how many words it holds and its text.
#[derive(Debug)]
pub struct ExtractedDocument {
    pub title: String,
    pub file_type: String,
    pub word_count: u32,
    pub full_text: String,
}

/// Whether a character has the Unicode `Alphabetic` property
/// (`char::is_alphabetic`).
pub uninterp spec fn alphabetic(c: char) -> bool;

/// `char::is_alphabetic`: the result is named `alphabetic`, the Unicode
/// `Alphabetic` property, which is not written out here; among ASCII
/// characters exactly the letters `A`..`Z` and `a`..`z` have it.
#[verifier::external_body]
fn is_alphabetic(c: char) -> (b: bool)
    ensures
        b == alphabetic(c),
        (c as u32) < 128 ==> (b <==> (65 <= (c as u32) <= 90 || 97 <= (c as u32) <= 122)),
{
    c.is_alphabetic()
}

/// A character in one of the CJK blocks counted as a word of its own:
/// unified ideographs, extension A, radicals, and CJK symbols and punctuation.
pub open spec fn is_cjk(c: char) -> bool {
    let u = c as u32;
    (0x4E00 <= u && u <= 0x9FFF) || (0x3400 <= u && u <= 0x4DBF) || (0x2E80 <= u && u <= 0x2FDF)
        || (0x3000 <= u && u <= 0x303F)
}

/// A character counted by the word count: a CJK character or any letter.
pub open spec fn counts_as_word(c: char) -> bool {
    is_cjk(c) || alphabetic(c)
}

/// The number of characters of `s` that count as words.
pub open spec fn word_count(s: Seq<char>) -> nat
    decreases s.len(),
{
    if s.len() == 0 {
        0
    } else {
        word_count(s.drop_last()) + if counts_as_word(s.last()) {
            1nat
        } else {
            0nat
        }
    }
}

proof fn lemma_word_count_bounded(s: Seq<char>)
    ensures
        word_count(s) <= s.len(),
    decreases s.len(),
{
    if s.len() > 0 {
        lemma_word_count_bounded(s.drop_last());
    }
}

/// Counts the words of a text the way a Chinese word count does: every CJK
/// character and every letter counts as one.
pub fn count_chinese_words(text: &str) -> (n: u32)
    requires
        text@.len() <= u32::MAX,
    ensures
        n == word_count(text@),
{
    let cs = chars_of(text);
    let mut count: u32 = 0;
    let mut i: usize = 0;
    while i < cs.len()
        invariant
            cs@ == text@,
            cs@.len() <= u32::MAX,
            i <= cs@.len(),
            count == word_count(cs@.take(i as int)),
        decreases cs@.len() - i,
    {
        let ch = cs[i];
        let u = ch as u32;
        proof {
            assert(cs@.take(i + 1).drop_last() =~= cs@.take(i as int));
            lemma_word_count_bounded(cs@.take(i as int));
        }
        if u >= 0x4E00 && u <= 0x9FFF || u >= 0x3400 && u <= 0x4DBF || u >= 0x2E80 && u <= 0x2FDF
            || u >= 0x3000 && u <= 0x303F {
            count = count + 1;
        } else if is_alphabetic(ch) {
            count = count + 1;
        }
        i = i + 1;
    }
    assert(cs@.take(cs@.len() as int) =~= cs@);
    count
}

/// The state of the scan over a `document.xml`: the text gathered so far,
/// whether the scan is inside a `<w:t>` run, and the characters read since
/// the last tag boundary.
pub type DocxScan = (Seq<char>, bool, Seq<char>);

/// A tag that opens a text run: `<w:t>` or `<w:t ...>`.
pub open spec fn opens_text_run(tag: Seq<char>) -> bool {
    tag == "<w:t>"@ || occurs_at(tag, "<w:t "@, 0)
}

/// One step of the scan. `<` flushes a pending run of text and starts a
/// tag; `>` ends the tag, which may open or close a text run, or end a
/// paragraph (adding a line break unless the text is empty or already
/// ends with one); any other character is buffered.
pub open spec fn docx_step(st: DocxScan, ch: char) -> DocxScan {
    let (text, in_run, buf) = st;
    if ch == '<' {
        let text2 = if in_run && buf.len() > 0 {
            text + buf
        } else {
            text
        };
        (text2, false, seq!['<'])
    } else if ch == '>' {
        let tag = buf.push('>');
        if opens_text_run(tag) {
            (text, true, Seq::empty())
        } else if tag == "</w:t>"@ {
            (text, false, Seq::empty())
        } else if tag == "</w:p>"@ {
            let text2 = if text.len() > 0 && text.last() != '\n' {
                text.push('\n')
            } else {
                text
            };
            (text2, in_run, Seq::empty())
        } else {
            (text, in_run, Seq::empty())
        }
    } else {
        (text, in_run, buf.push(ch))
    }
}

/// The scan state after reading all of `xml`.
pub open spec fn docx_scan(xml: Seq<char>) -> DocxScan
    decreases xml.len(),
{
    if xml.len() == 0 {
        (Seq::empty(), false, Seq::empty())
    } else {
        docx_step(docx_scan(xml.drop_last()), xml.last())
    }
}

/// The plain text of a `word/document.xml`: the contents of its `<w:t>`
/// runs, one line per paragraph, trimmed.
pub open spec fn docx_plain_text(xml: Seq<char>) -> Seq<char> {
    trim(docx_scan(xml).0)
}

/// Gathers the text runs of a `word/document.xml`, one line per paragraph.
pub fn extract_text_from_docx_xml(xml: &str) -> (s: String)
    ensures
        s@ == docx_plain_text(xml@),
{
    let cs = chars_of(xml);
    let open_plain = chars_of("<w:t>");
    let open_prefix = chars_of("<w:t ");
    let close_run = chars_of("</w:t>");
    let close_para = chars_of("</w:p>");
    let mut result: Vec<char> = Vec::new();
    let mut in_run = false;
    let mut buf: Vec<char> = Vec::new();
    let mut i: usize = 0;
    while i < cs.len()
        invariant
            cs@ == xml@,
            open_plain@ == "<w:t>"@,
            open_prefix@ == "<w:t "@,
            close_run@ == "</w:t>"@,
            close_para@ == "</w:p>"@,
            i <= cs@.len(),
            (result@, in_run, buf@) == docx_scan(cs@.take(i as int)),
        decreases cs@.len() - i,
    {
        let ch = cs[i];
        proof {
            assert(cs@.take(i + 1).drop_last() =~= cs@.take(i as int));
        }
        if ch == '<' {
            if in_run && buf.len() > 0 {
                crate::text::append_chars(&mut result, &buf);
            }
            in_run = false;
            buf = Vec::new();
            buf.push(ch);
        } else if ch == '>' {
            buf.push(ch);
            if chars_equal(&buf, &open_plain) || occurs_at_exec(&buf, &open_prefix, 0) {
                in_run = true;
            } else if chars_equal(&buf, &close_run) {
                in_run = false;
            } else if chars_equal(&buf, &close_para) {
                if result.len() > 0 && result[result.len() - 1] != '\n' {
                    result.push('\n');
                }
            }
            buf = Vec::new();
        } else {
            buf.push(ch);
        }
        proof {
            assert((result@, in_run, buf@) =~= docx_scan(cs@.take(i + 1)));
        }
        i = i + 1;
    }
    assert(cs@.take(cs@.len() as int) =~= cs@);
    let t = trim_chars(&result);
    string_of(&t)
}

/// The lowercase mapping of a text (`str::to_lowercase`).
pub uninterp spec fn lowercase(s: Seq<char>) -> Seq<char>;

/// A text of ASCII characters only.
pub open spec fn is_ascii_text(s: Seq<char>) -> bool {
    forall|i: int| 0 <= i < s.len() ==> (#[trigger] s[i] as u32) < 128
}

/// The ASCII lowercase mapping: `A`..`Z` become `a`..`z`, every other
/// character is kept.
pub open spec fn ascii_lowercase(s: Seq<char>) -> Seq<char> {
    s.map_values(
        |c: char|
            if 65 <= (c as u32) && (c as u32) <= 90 {
                ((c as u32) + 32) as char
            } else {
                c
            },
    )
}

/// `str::to_lowercase`: the result is named `lowercase`, Unicode's
/// lowercase mapping, which is not written out here; on a text of ASCII
/// characters only it is the ASCII mapping, as the Unicode tables give it.
#[verifier::external_body]
pub(crate) fn to_lowercase(s: &str) -> (r: String)
    ensures
        r@ == lowercase(s@),
        is_ascii_text(s@) ==> r@ == ascii_lowercase(s@),
{
    s.to_lowercase()
}

/// The byte offset in the UTF-8 encoding of `s` at which character `j`
/// starts.
pub open spec fn byte_offset(s: Seq<char>, j: int) -> nat {
    encode_utf8(s.take(j)).len()
}

/// `j` is where `p` first occurs in `s`.
pub open spec fn is_first_occurrence(s: Seq<char>, p: Seq<char>, j: int) -> bool {
    occurs_at(s, p, j) && forall|k: int| 0 <= k < j ==> !occurs_at(s, p, k)
}

/// The index of the first character of `s`, from index `k` on, that starts
/// at or after byte `pos`; 0 when there is none.
pub open spec fn char_index_from(s: Seq<char>, pos: int, k: int) -> int
    decreases s.len() - k,
{
    if k < 0 || k >= s.len() {
        0
    } else if byte_offset(s, k) >= pos {
        k
    } else {
        char_index_from(s, pos, k + 1)
    }
}

/// The snippet shown around a match at character `at`: `context / 2`
/// characters before it, the keyword's length and `context / 2` after it,
/// clipped to the text, trimmed and framed by ellipses.
pub open spec fn context_snippet(text: Seq<char>, keyword_len: int, context: int, at: int) -> Seq<
    char,
> {
    let half = context / 2;
    let start = if at >= half {
        at - half
    } else {
        0
    };
    let end = if at + keyword_len + half < text.len() {
        at + keyword_len + half
    } else {
        text.len() as int
    };
    "……"@ + trim(text.subrange(start, end)) + "……"@
}

/// The snippet for a keyword whose lowercase form first occurs at
/// character `j` of the lowercased text. The match is located in the
/// lowercased text by its byte offset, and that offset is then looked up
/// in the original text.
pub open spec fn snippet_for_match(text: Seq<char>, keyword: Seq<char>, context: int, j: int) -> Seq<
    char,
> {
    context_snippet(
        text,
        keyword.len() as int,
        context,
        char_index_from(text, byte_offset(lowercase(text), j) as int, 0),
    )
}

proof fn lemma_encode_utf8_push(s: Seq<char>, c: char)
    ensures
        encode_utf8(s.push(c)) == encode_utf8(s) + encode_scalar(c as u32),
    decreases s.len(),
{
    if s.len() == 0 {
        assert(s.push(c).drop_first() =~= Seq::<char>::empty());
        assert(s.push(c)[0] == c);
        assert(encode_utf8(Seq::<char>::empty()) =~= Seq::<u8>::empty());
        assert(encode_utf8(s.push(c)) == encode_scalar(c as u32) + encode_utf8(
            Seq::<char>::empty(),
        ));
        assert(encode_utf8(s.push(c)) =~= encode_utf8(s) + encode_scalar(c as u32));
    } else {
        lemma_encode_utf8_push(s.drop_first(), c);
        assert(s.push(c).drop_first() =~= s.drop_first().push(c));
        assert(s.push(c)[0] == s[0]);
        assert(encode_utf8(s.push(c)) == encode_scalar(s[0] as u32) + encode_utf8(
            s.drop_first().push(c),
        ));
        assert(encode_utf8(s) == encode_scalar(s[0] as u32) + encode_utf8(s.drop_first()));
        assert(encode_utf8(s.push(c)) =~= encode_utf8(s) + encode_scalar(c as u32));
    }
}

proof fn lemma_byte_offset_step(s: Seq<char>, j: int)
    requires
        0 <= j < s.len(),
    ensures
        byte_offset(s, j + 1) == byte_offset(s, j) + encode_scalar(s[j] as u32).len(),
{
    assert(s.take(j + 1) =~= s.take(j).push(s[j]));
    lemma_encode_utf8_push(s.take(j), s[j]);
}

proof fn lemma_byte_offset_monotone(s: Seq<char>, j: int, k: int)
    requires
        0 <= j <= k <= s.len(),
    ensures
        byte_offset(s, j) <= byte_offset(s, k),
    decreases k - j,
{
    if j < k {
        lemma_byte_offset_step(s, k - 1);
        lemma_byte_offset_monotone(s, j, k - 1);
    }
}

/// The number of bytes that encode `c` in UTF-8.
fn utf8_width(c: char) -> (w: usize)
    ensures
        w == encode_scalar(c as u32).len(),
{
    let u = c as u32;
    if u < 0x80 {
        1
    } else if u < 0x800 {
        2
    } else if u < 0x10000 {
        3
    } else {
        4
    }
}

/// The byte offset at which character `j` of `s` starts.
pub(crate) fn byte_offset_exec(s: &Vec<char>, j: usize) -> (r: u128)
    requires
        j <= s@.len(),
    ensures
        r == byte_offset(s@, j as int),
{
    let mut off: u128 = 0;
    let mut k: usize = 0;
    proof {
        assert(s@.take(0) =~= Seq::<char>::empty());
    }
    while k < j
        invariant
            k <= j <= s@.len(),
            off == byte_offset(s@, k as int),
            off <= 4 * k,
        decreases j - k,
    {
        proof {
            lemma_byte_offset_step(s@, k as int);
        }
        off = off + utf8_width(s[k]) as u128;
        k = k + 1;
    }
    off
}

/// Finds `keyword` in `full_text`, ignoring case, and returns the text
/// around its first occurrence framed by ellipses; an empty string when
/// either is empty or the keyword does not occur.
pub fn search_in_text(full_text: &str, keyword: &str, context_chars: usize) -> (r: String)
    requires
        full_text@.len() + keyword@.len() + context_chars / 2 <= usize::MAX,
    ensures
        (keyword@.len() == 0 || full_text@.len() == 0) ==> r@ == Seq::<char>::empty(),
        keyword@.len() > 0 && full_text@.len() > 0 && !contains(
            lowercase(full_text@),
            lowercase(keyword@),
        ) ==> r@ == Seq::<char>::empty(),
        keyword@.len() > 0 && full_text@.len() > 0 ==> forall|j: int|
            is_first_occurrence(lowercase(full_text@), lowercase(keyword@), j) ==> r@
                == snippet_for_match(full_text@, keyword@, context_chars as int, j),
{
    if keyword.is_empty() || full_text.is_empty() {
        return String::new();
    }
    let lower_text = to_lowercase(full_text);
    let lower_keyword = to_lowercase(keyword);
    let lt = chars_of(lower_text.as_str());
    let lk = chars_of(lower_keyword.as_str());
    let found = find_from(&lt, &lk, 0);
    match found {
        None => {
            assert forall|j: int| !occurs_at(lt@, lk@, j) by {
                if j < 0 {
                }
            }
            String::new()
        },
        Some(j) => {
            let ghost lower = lowercase(full_text@);
            let pos = byte_offset_exec(&lt, j);
            let text = chars_of(full_text);
            let n = text.len();
            let mut k: usize = 0;
            let mut off: u128 = 0;
            proof {
                assert(text@.take(0) =~= Seq::<char>::empty());
            }
            while k < n && off < pos
                invariant
                    n == text@.len(),
                    k <= n,
                    off == byte_offset(text@, k as int),
                    off <= 4 * k,
                    char_index_from(text@, pos as int, 0) == char_index_from(
                        text@,
                        pos as int,
                        k as int,
                    ),
                decreases n - k,
            {
                proof {
                    lemma_byte_offset_step(text@, k as int);
                }
                off = off + utf8_width(text[k]) as u128;
                k = k + 1;
            }
            let at = if k < n {
                k
            } else {
                0
            };
            let half = context_chars / 2;
            let start = if at >= half {
                at - half
            } else {
                0
            };
            let kw_len = chars_of(keyword).len();
            let end = if at + kw_len + half < n {
                at + kw_len + half
            } else {
                n
            };
            let piece = slice_chars(&text, start, end);
            let trimmed = trim_chars(&piece);
            let mut out = "……".to_owned();
            out.append(string_of(&trimmed).as_str());
            out.append("……");
            proof {
                assert forall|jj: int| is_first_occurrence(lower, lowercase(keyword@), jj) implies jj
                    == j by {
                    if jj < j {
                    } else if jj > j {
                    }
                }
            }
            out
        },
    }
}

/// `String::from_utf8`: `Ok` exactly when the bytes are valid UTF-8, with
/// the text they encode; the error's message is `FromUtf8Error`'s, which is
/// not stated.
#[verifier::external_body]
pub(crate) fn string_from_utf8(bytes: Vec<u8>) -> (r: Result<String, String>)
    ensures
        r is Ok <==> valid_utf8(bytes@),
        r matches Ok(s) ==> s@ == decode_utf8(bytes@),
{
    String::from_utf8(bytes).map_err(|e| e.to_string())
}

/// What `encoding_rs::GBK.decode` makes of some bytes: the decoded text and
/// whether malformed sequences were replaced.
pub uninterp spec fn gbk_decoding(bytes: Seq<u8>) -> (Seq<char>, bool);

/// `encoding_rs::GBK.decode`: the text and the had-errors flag are named
/// `gbk_decoding` of the bytes (a byte order mark, when present, selects
/// its encoding instead, as the crate does); the mapping is not written out.
#[verifier::external_body]
fn decode_gbk(bytes: &[u8]) -> (r: (String, bool))
    ensures
        (r.0@, r.1) == gbk_decoding(bytes@),
{
    let (text, _, had_errors) = encoding_rs::GBK.decode(bytes);
    (text.into_owned(), had_errors)
}

/// What `String::from_utf8_lossy` makes of some bytes.
pub uninterp spec fn utf8_lossy_text(bytes: Seq<u8>) -> Seq<char>;

/// `String::from_utf8_lossy`: the text is named `utf8_lossy_text`; on valid
/// UTF-8 it is the decoded text, as the documentation says.
#[verifier::external_body]
fn decode_utf8_lossy(bytes: &[u8]) -> (r: String)
    ensures
        r@ == utf8_lossy_text(bytes@),
        valid_utf8(bytes@) ==> r@ == decode_utf8(bytes@),
{
    String::from_utf8_lossy(bytes).into_owned()
}

/// The text of a `.txt` file: UTF-8 when the bytes are valid UTF-8, else
/// GBK, else (when GBK meets malformed bytes too) lossy UTF-8.
pub open spec fn txt_text(bytes: Seq<u8>) -> Seq<char> {
    if valid_utf8(bytes) {
        decode_utf8(bytes)
    } else if gbk_decoding(bytes).1 {
        utf8_lossy_text(bytes)
    } else {
        gbk_decoding(bytes).0
    }
}

/// Decodes the bytes of a `.txt` file: UTF-8 first, then GBK, then lossy
/// UTF-8.
pub fn decode_txt(bytes: &Vec<u8>) -> (s: String)
    ensures
        s@ == txt_text(bytes@),
{
    match string_from_utf8(bytes.clone()) {
        Ok(text) => text,
        Err(_) => {
            let (decoded, had_errors) = decode_gbk(bytes.as_slice());
            if had_errors {
                decode_utf8_lossy(bytes.as_slice())
            } else {
                decoded
            }
        },
    }
}

/// Why an entry of a zip archive could not be read.
#[derive(Debug)]
pub enum ZipEntryError {
    /// The bytes are not a zip archive; the crate's message.
    Archive(String),
    /// The archive has no readable entry of that name.
    MissingEntry,
    /// The entry could not be decompressed or is not UTF-8; the message.
    Unreadable(String),
}

/// The UTF-8 text of the entry called `entry` in the zip archive held in
/// `bytes`, when there is one that can be read.
pub uninterp spec fn zip_text_entry(bytes: Seq<u8>, entry: Seq<char>) -> Option<Seq<char>>;

/// Reads one entry of a zip archive as text (`zip::ZipArchive::new`,
/// `by_name`, then `read_to_string`). The text is named `zip_text_entry`
/// of the bytes and the entry's name; which error comes, and its message,
/// is left to the crate and not stated.
#[verifier::external_body]
fn read_zip_text_entry(bytes: &[u8], entry: &str) -> (r: Result<String, ZipEntryError>)
    ensures
        r is Ok <==> zip_text_entry(bytes@, entry@) is Some,
        r matches Ok(t) ==> zip_text_entry(bytes@, entry@) == Some(t@),
{
    let mut archive = match zip::ZipArchive::new(std::io::Cursor::new(bytes)) {
        Ok(a) => a,
        Err(e) => return Err(ZipEntryError::Archive(e.to_string())),
    };
    let mut file = match archive.by_name(entry) {
        Ok(f) => f,
        Err(_) => return Err(ZipEntryError::MissingEntry),
    };
    let mut text = String::new();
    match std::io::Read::read_to_string(&mut file, &mut text) {
        Ok(_) => Ok(text),
        Err(e) => Err(ZipEntryError::Unreadable(e.to_string())),
    }
}

/// The entry of a `.docx` archive that holds the document body.
pub open spec fn docx_body_entry() -> Seq<char> {
    "word/document.xml"@
}

/// The message shown when a `.docx` file cannot be read.
pub open spec fn docx_error_text(e: ZipEntryError) -> Seq<char> {
    match e {
        ZipEntryError::Archive(m) => "解析docx失败: "@ + m@,
        ZipEntryError::MissingEntry => "无效的docx文件：未找到word/document.xml"@,
        ZipEntryError::Unreadable(m) => "读取docx内容失败: "@ + m@,
    }
}

/// The message shown when a `.docx` file cannot be read.
pub fn docx_error_message(e: &ZipEntryError) -> (s: String)
    ensures
        s@ == docx_error_text(*e),
{
    match e {
        ZipEntryError::Archive(m) => {
            let mut s = "解析docx失败: ".to_owned();
            s.append(m.as_str());
            s
        },
        ZipEntryError::MissingEntry => "无效的docx文件：未找到word/document.xml".to_owned(),
        ZipEntryError::Unreadable(m) => {
            let mut s = "读取docx内容失败: ".to_owned();
            s.append(m.as_str());
            s
        },
    }
}

/// The formats a document can be imported from.
#[derive(Clone, Copy, Debug, PartialEq, Eq, Structural)]
pub enum DocumentFormat {
    Txt,
    Docx,
}

/// The message for a file extension that cannot be imported.
pub open spec fn unsupported_format_text(ext: Seq<char>) -> Seq<char> {
    "暂不支持的格式：."@ + ext + "，请使用 .txt 或 .docx"@
}

/// The format named by a (lowercase) file extension: `txt` or `docx`;
/// any other extension is refused with a message naming it.
pub fn document_format(ext: &str) -> (r: Result<DocumentFormat, String>)
    ensures
        ext@ == "txt"@ ==> r == Ok::<DocumentFormat, String>(DocumentFormat::Txt),
        ext@ == "docx"@ ==> r == Ok::<DocumentFormat, String>(DocumentFormat::Docx),
        ext@ != "txt"@ && ext@ != "docx"@ ==> (r matches Err(e) && e@ == unsupported_format_text(
            ext@,
        )),
{
    proof {
        reveal_strlit("txt");
        reveal_strlit("docx");
        assert("txt"@[0] != "docx"@[0]);
    }
    if crate::text::str_equals(ext, "txt") {
        Ok(DocumentFormat::Txt)
    } else if crate::text::str_equals(ext, "docx") {
        Ok(DocumentFormat::Docx)
    } else {
        let mut e = "暂不支持的格式：.".to_owned();
        e.append(ext);
        e.append("，请使用 .txt 或 .docx");
        Err(e)
    }
}

/// The message for a document too long to count its words in a `u32`.
pub open spec fn too_long_text() -> Seq<char> {
    "文档过长，无法统计字数"@
}

/// The document read from `text`, with its title, type and word count;
/// refused when the text has more characters than a `u32` counts.
fn document_of(title: &str, file_type: &str, text: String) -> (r: Result<ExtractedDocument, String>)
    ensures
        text@.len() <= u32::MAX ==> (r matches Ok(d) && d.title@ == title@ && d.file_type@
            == file_type@ && d.full_text@ == text@ && d.word_count == word_count(text@)),
        text@.len() > u32::MAX ==> (r matches Err(e) && e@ == too_long_text()),
{
    let n = chars_of(text.as_str()).len();
    if n > 0xFFFF_FFFF {
        return Err("文档过长，无法统计字数".to_owned());
    }
    let word_count = count_chinese_words(text.as_str());
    Ok(ExtractedDocument {
        title: title.to_owned(),
        file_type: file_type.to_owned(),
        word_count,
        full_text: text,
    })
}

/// What reading a document of a given format from the bytes of its file
/// gives: a `.txt` file is decoded (UTF-8, else GBK, else lossy UTF-8); from
/// a `.docx` archive the text runs of `word/document.xml` are gathered; a
/// text longer than a `u32` counts is refused, and so is an archive without
/// that entry.
pub open spec fn extracted(
    title: Seq<char>,
    format: DocumentFormat,
    bytes: Seq<u8>,
    r: Result<ExtractedDocument, String>,
) -> bool {
    match format {
        DocumentFormat::Txt => {
            let text = txt_text(bytes);
            &&& text.len() <= u32::MAX ==> (r matches Ok(d) && d.title@ == title && d.file_type@
                == "txt"@ && d.full_text@ == text && d.word_count == word_count(text))
            &&& text.len() > u32::MAX ==> (r matches Err(e) && e@ == too_long_text())
        },
        DocumentFormat::Docx => match zip_text_entry(bytes, docx_body_entry()) {
            Some(xml) => {
                let text = docx_plain_text(xml);
                &&& text.len() <= u32::MAX ==> (r matches Ok(d) && d.title@ == title
                    && d.file_type@ == "docx"@ && d.full_text@ == text && d.word_count
                    == word_count(text))
                &&& text.len() > u32::MAX ==> (r matches Err(e) && e@ == too_long_text())
            },
            None => r matches Err(e) && exists|z: ZipEntryError| e@ == docx_error_text(z),
        },
    }
}

/// The document of a given format read from the bytes of its file: a
/// `.txt` file is decoded (UTF-8, else GBK, else lossy UTF-8); from a
/// `.docx` archive the text runs of `word/document.xml` are gathered.
pub fn extract_from_bytes(title: &str, format: DocumentFormat, bytes: &Vec<u8>) -> (r: Result<
    ExtractedDocument,
    String,
>)
    ensures
        extracted(title@, format, bytes@, r),
{
    match format {
        DocumentFormat::Txt => {
            let text = decode_txt(bytes);
            document_of(title, "txt", text)
        },
        DocumentFormat::Docx => {
            match read_zip_text_entry(bytes.as_slice(), "word/document.xml") {
                Ok(xml) => {
                    let text = extract_text_from_docx_xml(xml.as_str());
                    document_of(title, "docx", text)
                },
                Err(z) => {
                    let e = docx_error_message(&z);
                    Err(e)
                },
            }
        },
    }
}

/// What the documentation of `Path::extension` promises of its result for
/// `path`: an extension is the part of the path's final component after the
/// component's last `.`, so it holds no `.` and no `/` (a separator on every
/// platform), and it stands in the path just after a `.`.
pub open spec fn documented_extension(path: Seq<char>, e: Option<Seq<char>>) -> bool {
    match e {
        None => true,
        Some(x) => {
            &&& !x.contains('.')
            &&& !x.contains('/')
            &&& exists|i: int|
                0 <= i && i + 1 + x.len() <= path.len() && #[trigger] path[i] == '.'
                    && path.subrange(i + 1, i + 1 + x.len()) == x
        },
    }
}

/// What the documentation of `Path::file_stem` promises of its result for
/// `path`: a stem is part of the path's final component, so it holds no `/`
/// and stands in the path.
pub open spec fn documented_stem(path: Seq<char>, s: Option<Seq<char>>) -> bool {
    match s {
        None => true,
        Some(x) => {
            &&& !x.contains('/')
            &&& exists|i: int| 0 <= i && i + x.len() <= path.len() && #[trigger] path.subrange(i, i + x.len()) == x
        },
    }
}

/// A path that is one plain file name on every platform: not empty, no
/// separator (`/`, `\\`), no drive or stream mark (`:`), and not `.` or `..`.
pub open spec fn plain_file_name(p: Seq<char>) -> bool {
    &&& p.len() > 0
    &&& !p.contains('/')
    &&& !p.contains('\\')
    &&& !p.contains(':')
    &&& p != seq!['.']
    &&& p != seq!['.', '.']
}

/// What follows the last `/` of a path (the whole path where it has none).
pub open spec fn final_segment(p: Seq<char>) -> Seq<char>
    decreases p.len(),
{
    if p.len() == 0 {
        p
    } else if p.last() == '/' {
        Seq::empty()
    } else {
        final_segment(p.drop_last()).push(p.last())
    }
}

/// A path whose file name is the same on every platform: it holds no `\\`,
/// does not begin with `//` (a network share on some platforms), and what
/// follows its last `/` is a plain file name, which is then its file name.
pub open spec fn portable_file_path(p: Seq<char>) -> bool {
    &&& !p.contains('\\')
    &&& !(p.len() >= 2 && p[0] == '/' && p[1] == '/')
    &&& plain_file_name(final_segment(p))
}

/// The index of the last `.` in `p`, or -1 where there is none.
pub open spec fn last_dot(p: Seq<char>) -> int
    decreases p.len(),
{
    if p.len() == 0 {
        -1
    } else if p.last() == '.' {
        p.len() - 1
    } else {
        last_dot(p.drop_last())
    }
}

/// The extension of a plain file name, by the documented rules: none where
/// the name has no `.` or its only `.` begins it; else what follows the last
/// `.`.
pub open spec fn plain_extension(p: Seq<char>) -> Option<Seq<char>> {
    let k = last_dot(p);
    if k <= 0 {
        None
    } else {
        Some(p.subrange(k + 1, p.len() as int))
    }
}

/// The stem of a plain file name, by the documented rules: the whole name
/// where it has no extension, else what comes before the last `.`.
pub open spec fn plain_stem(p: Seq<char>) -> Seq<char> {
    let k = last_dot(p);
    if k <= 0 {
        p
    } else {
        p.subrange(0, k)
    }
}

/// An optional text taken by its characters.
pub open spec fn optional_text(o: Option<String>) -> Option<Seq<char>> {
    match o {
        Some(x) => Some(x@),
        None => None,
    }
}

/// `Path::extension` of a path, as text. Which component is final depends
/// on the platform's separators, so only what holds on every platform is
/// stated: the documented shape of an extension, and the extension itself
/// where the path's file name is the same on every platform.
#[verifier::external_body]
fn path_extension(path: &str) -> (r: Option<String>)
    ensures
        documented_extension(path@, optional_text(r)),
        portable_file_path(path@) ==> optional_text(r) == plain_extension(final_segment(path@)),
{
    std::path::Path::new(path).extension().and_then(|e| e.to_str()).map(|e| e.to_owned())
}

/// `Path::file_stem` of a path, as text. Which component is final depends
/// on the platform's separators, so only what holds on every platform is
/// stated: the documented shape of a stem, and the stem itself where the
/// path's file name is the same on every platform.
#[verifier::external_body]
fn path_stem(path: &str) -> (r: Option<String>)
    ensures
        documented_stem(path@, optional_text(r)),
        portable_file_path(path@) ==> optional_text(r) == Some(plain_stem(final_segment(path@))),
{
    std::path::Path::new(path).file_stem().and_then(|e| e.to_str()).map(|e| e.to_owned())
}

/// The extension part of `path_parts`: the extension lowercased (by the
/// ASCII mapping where it is ASCII), or empty.
pub open spec fn extension_text(e: Option<Seq<char>>) -> Seq<char> {
    match e {
        Some(x) => if is_ascii_text(x) {
            ascii_lowercase(x)
        } else {
            lowercase(x)
        },
        None => Seq::empty(),
    }
}

/// The title part of `path_parts`: the file stem, or `未知文档`.
pub open spec fn title_text(s: Option<Seq<char>>) -> Seq<char> {
    match s {
        Some(x) => x,
        None => "未知文档"@,
    }
}

/// The lowercase extension of a path (empty when it has none) and its
/// title (the file name without extension, or `未知文档`).
pub fn path_parts(file_path: &str) -> (r: (String, String))
    ensures
        exists|e: Option<Seq<char>>, s: Option<Seq<char>>|
            documented_extension(file_path@, e) && documented_stem(file_path@, s) && r.0@
                == extension_text(e) && r.1@ == title_text(s),
        !file_path@.contains('.') ==> r.0@ == Seq::<char>::empty(),
        portable_file_path(file_path@) ==> r.0@ == extension_text(
            plain_extension(final_segment(file_path@)),
        ) && r.1@ == plain_stem(final_segment(file_path@)),
{
    let found_ext = path_extension(file_path);
    let ghost ge = optional_text(found_ext);
    let ext = match found_ext {
        Some(e) => to_lowercase(e.as_str()),
        None => String::new(),
    };
    let found_stem = path_stem(file_path);
    let ghost gs = optional_text(found_stem);
    let title = match found_stem {
        Some(t) => t,
        None => "未知文档".to_owned(),
    };
    proof {
        assert(ext@ == extension_text(ge));
        assert(title@ == title_text(gs));
        assert(documented_extension(file_path@, ge) && documented_stem(file_path@, gs));
        if !file_path@.contains('.') {
            if let Some(x) = ge {
                let i = choose|i: int|
                    0 <= i && i + 1 + x.len() <= file_path@.len() && #[trigger] file_path@[i] == '.'
                        && file_path@.subrange(i + 1, i + 1 + x.len()) == x;
                assert(file_path@.contains(file_path@[i]));
            }
        }
    }
    (ext, title)
}

/// The message for a file that could not be read.
pub open spec fn read_failed_text(e: Seq<char>) -> Seq<char> {
    "读取文件失败: "@ + e
}

/// What importing a document whose lowercase extension is `ext` and whose
/// title is `title` gives, where `contents` is what reading its file gave:
/// an extension other than `txt` and `docx` is refused, whatever the
/// contents; a failed read is reported; else the document is read from the
/// bytes.
pub open spec fn import_outcome(
    ext: Seq<char>,
    title: Seq<char>,
    contents: Result<Vec<u8>, String>,
    r: Result<ExtractedDocument, String>,
) -> bool {
    if ext != "txt"@ && ext != "docx"@ {
        r matches Err(e) && e@ == unsupported_format_text(ext)
    } else {
        match contents {
            Err(m) => r matches Err(e) && e@ == read_failed_text(m@),
            Ok(bytes) => extracted(
                title,
                if ext == "txt"@ {
                    DocumentFormat::Txt
                } else {
                    DocumentFormat::Docx
                },
                bytes@,
                r,
            ),
        }
    }
}

/// Imports a document: its format comes from the path's extension (`.txt`
/// or `.docx`, any case), its title from the file name (`未知文档` where it
/// has none); `contents` is what reading the file gave. An unsupported
/// extension is refused before the contents are looked at; a failed read is
/// reported; else the document is read from the bytes as
/// `extract_from_bytes` does.
pub fn extract_text(file_path: &str, contents: &Result<Vec<u8>, String>) -> (r: Result<
    ExtractedDocument,
    String,
>)
    ensures
        exists|e: Option<Seq<char>>, s: Option<Seq<char>>|
            documented_extension(file_path@, e) && documented_stem(file_path@, s) && import_outcome(
                extension_text(e),
                title_text(s),
                *contents,
                r,
            ),
        portable_file_path(file_path@) ==> import_outcome(
            extension_text(plain_extension(final_segment(file_path@))),
            plain_stem(final_segment(file_path@)),
            *contents,
            r,
        ),
{
    let (ext, title) = path_parts(file_path);
    let r = match document_format(ext.as_str()) {
        Err(e) => Err(e),
        Ok(format) => match contents {
            Err(m) => {
                let mut e = "读取文件失败: ".to_owned();
                e.append(m.as_str());
                Err(e)
            },
            Ok(bytes) => extract_from_bytes(title.as_str(), format, bytes),
        },
    };
    proof {
        reveal_strlit("txt");
        reveal_strlit("docx");
        assert(import_outcome(ext@, title@, *contents, r));
    }
    r
}

} // verus!
