//! Speech-to-text support: languages, token decoding and vocabulary files.

pub mod cloud;
pub mod qwen_asr;
pub mod sensevoice;

use vstd::prelude::*;
use vstd::string::StringExecFns;
use crate::ids::uuid_v4_text;
use crate::models::segment::Segment;
use crate::text::{chars_of, str_eq, string_of, trim, trim_chars};

verus! {

broadcast use vstd::string::group_string_axioms;

/// A supported language.
#[derive(Debug, Clone)]
pub struct Language {
    pub code: String,
    pub name: String,
}

impl Language {
    pub fn new(code: &str, name: &str) -> (l: Self)
        ensures
            l.code@ == code@,
            l.name@ == name@,
    {
        Language { code: String::from_str(code), name: String::from_str(name) }
    }

    /// Automatic language detection.
    pub fn auto() -> (l: Self)
        ensures
            l.code@ == "auto"@,
            l.name@ == "Auto-detect"@,
    {
        Self::new("auto", "Auto-detect")
    }
}

/// The number of analysis frames of `len` samples: one per `hop` samples
/// while a whole window fits, and at least one.
pub fn frame_count(len: usize, window: usize, hop: usize) -> (n: usize)
    requires
        len >= window ==> hop > 0 && (len - window) / (hop as int) + 1 <= usize::MAX,
    ensures
        len >= window ==> n == (len - window) / (hop as int) + 1,
        len < window ==> n == 1,
{
    if len >= window {
        (len - window) / hop + 1
    } else {
        1
    }
}

/// The language to ask an engine for: the configured one, unless it is
/// `auto` (or unset), in which case the engine detects it.
pub fn requested_language(language: &Option<String>) -> (r: Option<String>)
    ensures
        r matches Some(l) ==> language matches Some(c) && l@ == c@ && c@ != "auto"@,
        r is None ==> (language is None || (language matches Some(c) && c@ == "auto"@)),
{
    match language {
        Some(l) => {
            if str_eq(l.as_str(), "auto") {
                None
            } else {
                Some(String::from_str(l.as_str()))
            }
        },
        None => None,
    }
}

/// The segment of a transcribed chunk: the decoded text, trimmed, timed
/// by the chunk; none when the text is blank.
pub fn chunk_segment(note_id: &str, text: &str, start_ms: i64, end_ms: i64) -> (r: Option<Segment>)
    ensures
        trim(text@).len() == 0 <==> r is None,
        r matches Some(s) ==> s.text@ == trim(text@) && s.note_id@ == note_id@ && s.start_ms == start_ms
            && s.end_ms == end_ms && s.speaker_id is None && s.confidence is None && uuid_v4_text(s.id@),
{
    let t = trim_chars(&chars_of(text));
    if t.len() == 0 {
        return None;
    }
    let ts = string_of(&t);
    Some(Segment::new(note_id, ts.as_str(), start_ms, end_ms))
}

/// The characters of each string of a vocabulary.
pub open spec fn vocab_view(vocab: Seq<String>) -> Seq<Seq<char>> {
    vocab.map_values(|s: String| s@)
}

/// The vocabulary entry for a token id, when the id indexes the vocabulary.
pub open spec fn token_at(vocab: Seq<Seq<char>>, id: i64) -> Option<Seq<char>> {
    if 0 <= id < vocab.len() {
        Some(vocab[id as int])
    } else {
        None
    }
}

/// The vocabulary entry for a token id, if the id indexes the vocabulary.
pub fn lookup_token(vocab: &[String], id: i64) -> (r: Option<&String>)
    ensures
        r matches Some(t) ==> token_at(vocab_view(vocab@), id) == Some(t@),
        r is None ==> token_at(vocab_view(vocab@), id) is None,
{
    if id < 0 {
        return None;
    }
    let n = vocab.len();
    if (id as u64) >= (n as u64) {
        return None;
    }
    let idx = id as usize;
    Some(&vocab[idx])
}

} // verus!
