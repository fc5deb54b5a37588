//! Speech input: the WAV file made of the recorded samples, and the
//! request to and reply from the transcription service.
use vstd::prelude::*;
use crate::ai_service::{result_view, trim_end_char, trim_end_char_exec};
use crate::text::{chars_of, slice_chars, string_of, trim, trim_chars};

verus! {

broadcast use vstd::string::group_string_axioms;

/// Records the microphone and transcribes what was said.
pub struct SttService;

/// The four bytes of `x`, least significant first.
pub open spec fn le32(x: nat) -> Seq<u8> {
    seq![(x % 256) as u8, ((x / 256) % 256) as u8, ((x / 65536) % 256) as u8, ((x / 16777216) % 256) as u8]
}

/// The two bytes of `x`, least significant first.
pub open spec fn le16(x: nat) -> Seq<u8> {
    seq![(x % 256) as u8, ((x / 256) % 256) as u8]
}

/// The ASCII bytes of a four-letter tag.
pub open spec fn tag4(a: u8, b: u8, c: u8, d: u8) -> Seq<u8> {
    seq![a, b, c, d]
}

/// The 44-byte header of a 16-bit PCM WAV file holding `sample_count`
/// samples.
pub open spec fn wav_header_bytes(sample_rate: nat, channels: nat, sample_count: nat) -> Seq<u8> {
    let data_len = sample_count * 2;
    tag4(0x52, 0x49, 0x46, 0x46) + le32(36 + data_len) + tag4(0x57, 0x41, 0x56, 0x45) + tag4(
        0x66,
        0x6d,
        0x74,
        0x20,
    ) + le32(16) + le16(1) + le16(channels) + le32(sample_rate) + le32(sample_rate * channels * 2)
        + le16(channels * 2) + le16(16) + tag4(0x64, 0x61, 0x74, 0x61) + le32(data_len)
}

fn push_le32(v: &mut Vec<u8>, x: u32)
    ensures
        final(v)@ == old(v)@ + le32(x as nat),
{
    v.push((x % 256) as u8);
    v.push(((x / 256) % 256) as u8);
    v.push(((x / 65536) % 256) as u8);
    v.push(((x / 16777216) % 256) as u8);
    assert(final(v)@ =~= old(v)@ + le32(x as nat));
}

fn push_le16(v: &mut Vec<u8>, x: u16)
    ensures
        final(v)@ == old(v)@ + le16(x as nat),
{
    v.push((x % 256) as u8);
    v.push(((x / 256) % 256) as u8);
    assert(final(v)@ =~= old(v)@ + le16(x as nat));
}

fn push_tag(v: &mut Vec<u8>, a: u8, b: u8, c: u8, d: u8)
    ensures
        final(v)@ == old(v)@ + tag4(a, b, c, d),
{
    v.push(a);
    v.push(b);
    v.push(c);
    v.push(d);
    assert(final(v)@ =~= old(v)@ + tag4(a, b, c, d));
}

/// The bytes of 16-bit samples, each least significant byte first.
pub open spec fn pcm16_bytes(samples: Seq<i16>) -> Seq<u8>
    decreases samples.len(),
{
    if samples.len() == 0 {
        Seq::empty()
    } else {
        pcm16_bytes(samples.drop_last()) + le16(
            (if samples.last() < 0 {
                samples.last() + 65536
            } else {
                samples.last() as int
            }) as nat,
        )
    }
}

impl SttService {
    /// The header of a 16-bit PCM WAV file with `sample_count` samples.
    pub fn wav_header(sample_rate: u32, channels: u16, sample_count: usize) -> (h: Vec<u8>)
        requires
            36 + sample_count * 2 <= u32::MAX,
            sample_rate * channels * 2 <= u32::MAX,
            channels * 2 <= u16::MAX,
        ensures
            h@ == wav_header_bytes(sample_rate as nat, channels as nat, sample_count as nat),
            h@.len() == 44,
    {
        let data_len = (sample_count * 2) as u32;
        let mut h: Vec<u8> = Vec::new();
        push_tag(&mut h, 0x52, 0x49, 0x46, 0x46);
        push_le32(&mut h, 36 + data_len);
        push_tag(&mut h, 0x57, 0x41, 0x56, 0x45);
        push_tag(&mut h, 0x66, 0x6d, 0x74, 0x20);
        push_le32(&mut h, 16);
        push_le16(&mut h, 1);
        push_le16(&mut h, channels);
        push_le32(&mut h, sample_rate);
        push_le32(&mut h, sample_rate * channels as u32 * 2);
        push_le16(&mut h, channels * 2);
        push_le16(&mut h, 16);
        push_tag(&mut h, 0x64, 0x61, 0x74, 0x61);
        push_le32(&mut h, data_len);
        h
    }

    /// A 16-bit PCM WAV file holding the samples.
    pub fn wav_from_pcm16(samples: &Vec<i16>, sample_rate: u32, channels: u16) -> (w: Vec<u8>)
        requires
            36 + samples@.len() * 2 <= u32::MAX,
            sample_rate * channels * 2 <= u32::MAX,
            channels * 2 <= u16::MAX,
        ensures
            w@ == wav_header_bytes(sample_rate as nat, channels as nat, samples@.len() as nat)
                + pcm16_bytes(samples@),
    {
        let mut w = Self::wav_header(sample_rate, channels, samples.len());
        let ghost header = w@;
        let mut i: usize = 0;
        assert(samples@.take(0) =~= Seq::<i16>::empty());
        while i < samples.len()
            invariant
                i <= samples@.len(),
                w@ == header + pcm16_bytes(samples@.take(i as int)),
            decreases samples@.len() - i,
        {
            let s = samples[i];
            let u: u16 = if s < 0 {
                (s as i32 + 65536) as u16
            } else {
                s as u16
            };
            push_le16(&mut w, u);
            assert(samples@.take(i + 1).drop_last() =~= samples@.take(i as int));
            assert(w@ =~= header + pcm16_bytes(samples@.take(i + 1)));
            i = i + 1;
        }
        assert(samples@.take(samples@.len() as int) =~= samples@);
        w
    }

    /// The address of the transcription service: the endpoint without
    /// trailing slashes, then `/audio/transcriptions`.
    pub fn transcription_url(endpoint: &str) -> (u: String)
        ensures
            u@ == trim_end_char(endpoint@, '/') + "/audio/transcriptions"@,
    {
        let cs = chars_of(endpoint);
        let base = trim_end_char_exec(&cs, '/');
        let mut u = string_of(&base);
        u.append("/audio/transcriptions");
        u
    }

    /// The message for a refused transcription: the HTTP status and the
    /// first 200 characters of the reply.
    pub fn transcription_error(status: &str, body: &str) -> (m: String)
        ensures
            m@ == "语音转写失败 ("@ + status@ + "): "@ + body@.take(
                if body@.len() < 200 {
                    body@.len() as int
                } else {
                    200
                },
            ),
    {
        let cs = chars_of(body);
        let n = if cs.len() < 200 {
            cs.len()
        } else {
            200
        };
        let mut m = "语音转写失败 (".to_owned();
        m.append(status);
        m.append("): ");
        m.append(string_of(&slice_chars(&cs, 0, n)).as_str());
        m
    }

    /// The text of a transcription reply: its `text`, trimmed; an error when
    /// the reply is not JSON or the text is missing or blank.
    pub fn transcript_text(body: &str) -> (r: Result<String, String>)
        ensures
            result_view(r) == transcript_outcome(transcript_field(body@)),
    {
        let field = parse_transcript_field(body);
        Self::transcript_text_of(field)
    }

    /// The text of a transcription reply whose `text` field was read as
    /// `field` (the parse error's message where the reply was not JSON).
    pub fn transcript_text_of(field: Result<Option<String>, String>) -> (r: Result<String, String>)
        ensures
            result_view(r) == transcript_outcome(transcript_view(field)),
    {
        match field {
            Err(e) => {
                let mut m = "解析转写响应失败: ".to_owned();
                m.append(e.as_str());
                Err(m)
            },
            Ok(None) => Err("转写结果为空".to_owned()),
            Ok(Some(t)) => {
                let trimmed = trim_chars(&chars_of(t.as_str()));
                if trimmed.len() == 0 {
                    Err("转写结果为空".to_owned())
                } else {
                    Ok(string_of(&trimmed))
                }
            },
        }
    }
}

/// The text of a transcription reply from its `text` field as read: the
/// text trimmed; an error when the reply was not JSON or the text is
/// missing or blank.
pub open spec fn transcript_outcome(field: Result<Option<Seq<char>>, Seq<char>>) -> Result<
    Seq<char>,
    Seq<char>,
> {
    match field {
        Err(e) => Err("解析转写响应失败: "@ + e),
        Ok(Some(t)) => if trim(t).len() > 0 {
            Ok(trim(t))
        } else {
            Err("转写结果为空"@)
        },
        Ok(None) => Err("转写结果为空"@),
    }
}

/// The view of a read `text` field.
pub open spec fn transcript_view(field: Result<Option<String>, String>) -> Result<
    Option<Seq<char>>,
    Seq<char>,
> {
    match field {
        Err(e) => Err(e@),
        Ok(None) => Ok(None),
        Ok(Some(t)) => Ok(Some(t@)),
    }
}

/// What `serde_json` reads from a transcription reply: its `text` where it
/// is a string, or the parse error's message when the reply is not JSON.
pub uninterp spec fn transcript_field(body: Seq<char>) -> Result<Option<Seq<char>>, Seq<char>>;

/// Parses a transcription reply with `serde_json::from_str::<Value>` and
/// reads its `text`; the result is named `transcript_field` of the reply.
#[verifier::external_body]
fn parse_transcript_field(body: &str) -> (r: Result<Option<String>, String>)
    ensures
        match r {
            Ok(Some(t)) => transcript_field(body@) == Ok::<Option<Seq<char>>, Seq<char>>(Some(t@)),
            Ok(None) => transcript_field(body@) == Ok::<Option<Seq<char>>, Seq<char>>(None),
            Err(e) => transcript_field(body@) == Err::<Option<Seq<char>>, Seq<char>>(e@),
        },
{
    let json: serde_json::Value = serde_json::from_str(body).map_err(|e| e.to_string())?;
    Ok(json["text"].as_str().map(|s| s.to_owned()))
}

} // verus!
