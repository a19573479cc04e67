//! The OpenAI text-to-speech engine.

use vstd::prelude::*;
use crate::tts::{codes, voice_language_list, voice_languages};

verus! {

/// The OpenAI speech API.
pub struct OpenAiTtsProvider {
    api_key: String,
    supported_languages: Vec<String>,
}

impl OpenAiTtsProvider {
    pub closed spec fn key(&self) -> Seq<char> {
        self.api_key@
    }

    pub closed spec fn languages(&self) -> Seq<Seq<char>> {
        codes(self.supported_languages@)
    }

    pub fn new(api_key: String) -> (p: Self)
        ensures
            p.key() == api_key@,
            p.languages() == voice_languages(),
    {
        OpenAiTtsProvider { api_key, supported_languages: voice_language_list() }
    }

    pub fn supported_languages(&self) -> (v: &[String])
        ensures
            codes(v@) == self.languages(),
    {
        self.supported_languages.as_slice()
    }

    pub fn name(&self) -> (n: &'static str)
        ensures
            n@ == "openai-tts"@,
    {
        "openai-tts"
    }
}

} // verus!
