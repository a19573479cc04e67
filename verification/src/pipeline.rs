//! The decisions of the live transcription pipeline that do not touch
//! audio: the context that is handed back to the speech engine after each
//! transcribed chunk.  Capture, resampling, voice detection and the
//! processing loop itself belong to the application.

use vstd::prelude::*;
use crate::text::{chars_of, join, join_words, string_of};

verus! {

broadcast use vstd::string::group_string_axioms;

/// How many of the latest segments make up the prompt context.
pub const CONTEXT_SEGMENTS: usize = 3;

/// The texts of the last (at most) three segments, joined with single
/// spaces, oldest first.
pub open spec fn prompt_context_spec(texts: Seq<Seq<char>>) -> Seq<char> {
    let start: int = if texts.len() >= 3 { texts.len() - 3 } else { 0 };
    join(texts.subrange(start, texts.len() as int), seq![' '])
}

/// The initial prompt for the next chunk: the texts of the last three
/// segments of a chunk, in order, joined with spaces.
pub fn prompt_context(texts: &Vec<String>) -> (r: String)
    ensures
        r@ == prompt_context_spec(texts@.map_values(|t: String| t@)),
{
    let mut ws: Vec<Vec<char>> = Vec::new();
    let mut i: usize = 0;
    while i < texts.len()
        invariant
            i <= texts.len(),
            ws.len() == i,
            forall|k: int| 0 <= k < i ==> #[trigger] ws@[k]@ == texts@[k]@,
        decreases texts.len() - i,
    {
        ws.push(chars_of(texts[i].as_str()));
        i += 1;
    }
    let n = ws.len();
    let start: usize = if n >= CONTEXT_SEGMENTS { n - CONTEXT_SEGMENTS } else { 0 };
    let out = join_words(&ws, start, n);
    assert(ws@.map_values(|w: Vec<char>| w@) =~= texts@.map_values(|t: String| t@));
    string_of(&out)
}

} // verus!
