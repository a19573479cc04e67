//! The request of the light language-model pass that fixes typos in a
//! transcript.  Sending it to a model is the application's part.

use vstd::prelude::*;
use vstd::string::{StringExecFns, StringSliceAdditionalSpecFns};
use crate::text::{chars_of, trim, trim_chars};

verus! {

broadcast use vstd::string::group_string_axioms;

/// The instruction that precedes the transcript in the request.
pub const CORRECTION_INSTRUCTION: &'static str = "Fix any typos or transcription errors in the following text. Only fix clear errors, do not change the meaning or style. Return only the corrected text, nothing else.\n\n";

/// A request to the model: the prompt and the token budget.
#[derive(Debug, Clone)]
pub struct CorrectionRequest {
    pub prompt: String,
    pub max_tokens: usize,
}

/// What the corrector does with `text`.
///
/// A text that is blank (empty once white space is trimmed) is returned
/// unchanged and no model is asked: `None`.  Otherwise the model gets the
/// instruction followed by the text, with a budget of twice the text's
/// length in UTF-8 bytes.
pub fn correction_request(text: &str) -> (r: Option<CorrectionRequest>)
    requires
        2 * text.spec_bytes().len() <= usize::MAX,
    ensures
        trim(text@).len() == 0 <==> r is None,
        r matches Some(q) ==> q.prompt@ == CORRECTION_INSTRUCTION@ + text@ && q.max_tokens == 2
            * text.spec_bytes().len(),
{
    let t = trim_chars(&chars_of(text));
    if t.len() == 0 {
        return None;
    }
    let mut prompt = String::from_str(CORRECTION_INSTRUCTION);
    prompt.append(text);
    Some(CorrectionRequest { prompt, max_tokens: text.len() * 2 })
}

} // verus!
