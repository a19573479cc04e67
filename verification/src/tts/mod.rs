//! Text-to-speech engines: their configuration.
//!
//! Synthesis itself produces floating-point audio and runs outside the
//! library.

pub mod cloud;
pub mod onnx;

use vstd::prelude::*;
use vstd::string::StringExecFns;

verus! {

broadcast use vstd::string::group_string_axioms;

/// The languages both voice engines offer: Korean, English, Japanese.
pub open spec fn voice_languages() -> Seq<Seq<char>> {
    seq!["ko"@, "en"@, "ja"@]
}

/// The language codes of a list.
pub open spec fn codes(v: Seq<String>) -> Seq<Seq<char>> {
    v.map_values(|s: String| s@)
}

/// A fresh list of the voice languages.
pub fn voice_language_list() -> (v: Vec<String>)
    ensures
        codes(v@) == voice_languages(),
{
    let mut v: Vec<String> = Vec::new();
    v.push(String::from_str("ko"));
    v.push(String::from_str("en"));
    v.push(String::from_str("ja"));
    assert(codes(v@) =~= voice_languages());
    v
}

} // verus!
