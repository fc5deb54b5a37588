//! Speech output through Microsoft Edge's free voices: the voices offered,
//! the default voice, and the validation of the audio the service returns.
use vstd::prelude::*;

verus! {

/// Speaks text with an Edge voice.
pub struct EdgeTTS;

/// The voices offered, as (voice name, label).
pub open spec fn edge_voice_list() -> Seq<(Seq<char>, Seq<char>)> {
    seq![
        ("zh-CN-XiaoxiaoNeural"@, "晓晓 (女/活泼)"@),
        ("zh-CN-XiaoyiNeural"@, "晓伊 (女/温柔)"@),
        ("zh-CN-YunjianNeural"@, "云健 (男/阳光)"@),
        ("zh-CN-YunxiNeural"@, "云希 (男/沉稳)"@),
        ("zh-CN-YunxiaNeural"@, "云霞 (女/亲切)"@),
        ("zh-CN-YunyangNeural"@, "云扬 (男/新闻)"@),
        ("zh-CN-XiaochenNeural"@, "晓晨 (女/自然)"@),
        ("zh-CN-XiaohanNeural"@, "晓涵 (女/甜美)"@),
    ]
}

impl EdgeTTS {
    /// The speaker.
    pub fn new() -> (t: Self) {
        EdgeTTS
    }

    /// The voices offered, as (voice name, label).
    pub fn voices() -> (v: Vec<(&'static str, &'static str)>)
        ensures
            v@.map_values(|p: (&'static str, &'static str)| (p.0@, p.1@)) == edge_voice_list(),
    {
        let mut v: Vec<(&'static str, &'static str)> = Vec::new();
        v.push(("zh-CN-XiaoxiaoNeural", "晓晓 (女/活泼)"));
        v.push(("zh-CN-XiaoyiNeural", "晓伊 (女/温柔)"));
        v.push(("zh-CN-YunjianNeural", "云健 (男/阳光)"));
        v.push(("zh-CN-YunxiNeural", "云希 (男/沉稳)"));
        v.push(("zh-CN-YunxiaNeural", "云霞 (女/亲切)"));
        v.push(("zh-CN-YunyangNeural", "云扬 (男/新闻)"));
        v.push(("zh-CN-XiaochenNeural", "晓晨 (女/自然)"));
        v.push(("zh-CN-XiaohanNeural", "晓涵 (女/甜美)"));
        assert(v@.map_values(|p: (&'static str, &'static str)| (p.0@, p.1@)) =~= edge_voice_list());
        v
    }

    /// The voice to speak with: the one asked for, else 晓晓.
    pub fn voice_or_default(voice: Option<String>) -> (v: String)
        ensures
            v@ == match voice {
                Some(x) => x@,
                None => "zh-CN-XiaoxiaoNeural"@,
            },
    {
        match voice {
            Some(x) => x,
            None => "zh-CN-XiaoxiaoNeural".to_owned(),
        }
    }

    /// The audio the service returned, refused when it is empty.
    pub fn checked_audio(audio: Vec<u8>) -> (r: Result<Vec<u8>, String>)
        ensures
            audio@.len() > 0 ==> (r matches Ok(a) && a@ == audio@),
            audio@.len() == 0 ==> (r matches Err(e) && e@ == "Edge TTS 未返回音频数据"@),
    {
        if audio.len() == 0 {
            Err("Edge TTS 未返回音频数据".to_owned())
        } else {
            Ok(audio)
        }
    }
}

} // verus!
