//! The local Piper text-to-speech engine.

use vstd::prelude::*;
use crate::tts::{codes, voice_language_list, voice_languages};

verus! {

/// A Piper voice model on disk.
pub struct LocalTtsProvider {
    model_path: std::path::PathBuf,
    supported_languages: Vec<String>,
}

impl LocalTtsProvider {
    pub closed spec fn languages(&self) -> Seq<Seq<char>> {
        codes(self.supported_languages@)
    }

    pub fn new(model_path: std::path::PathBuf) -> (p: Self)
        ensures
            p.languages() == voice_languages(),
    {
        LocalTtsProvider { model_path, supported_languages: voice_language_list() }
    }

    pub fn supported_languages(&self) -> (v: &[String])
        ensures
            codes(v@) == self.languages(),
    {
        self.supported_languages.as_slice()
    }

    pub fn name(&self) -> (n: &'static str)
        ensures
            n@ == "piper-local"@,
    {
        "piper-local"
    }
}

} // verus!
