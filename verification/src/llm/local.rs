//! Text handling around local generation: the context-length check,
//! removal of reasoning traces and ChatML prompt wrapping.

use vstd::prelude::*;
use vstd::string::StringExecFns;
use crate::error::LlmError;
use crate::text::{chars_of, has_prefix, matches_at, string_of, trim, trim_chars};

verus! {

broadcast use vstd::string::group_string_axioms;

/// Whether a prompt of `prompt_tokens` tokens fits a context of
/// `context_length`; otherwise the overflow error with both counts.
pub fn check_context(prompt_tokens: usize, context_length: usize) -> (r: Result<(), LlmError>)
    ensures
        prompt_tokens <= context_length ==> r is Ok,
        prompt_tokens > context_length ==> (r matches Err(LlmError::ContextOverflow { used, max })
            && used == prompt_tokens && max == context_length),
{
    if prompt_tokens > context_length {
        Err(LlmError::ContextOverflow { used: prompt_tokens, max: context_length })
    } else {
        Ok(())
    }
}

/// The opening tag of a reasoning trace.
pub open spec fn think_open() -> Seq<char> {
    seq!['<', 't', 'h', 'i', 'n', 'k', '>']
}

/// The closing tag of a reasoning trace.
pub open spec fn think_close() -> Seq<char> {
    seq!['<', '/', 't', 'h', 'i', 'n', 'k', '>']
}

/// What is kept of `s` when `depth` reasoning blocks are open at its
/// start.  Each `<think>` opens a block, nested in any open one; inside a
/// block, `</think>` closes the innermost one.  Text outside every block is
/// kept, a `</think>` outside every block included; the text of a block,
/// nested blocks and both tags of the outermost pair are dropped; blocks
/// still open at the end drop the rest of the text.
pub open spec fn strip_from(s: Seq<char>, depth: nat) -> Seq<char>
    decreases s.len(),
{
    if s.len() == 0 {
        s
    } else if has_prefix(s, think_open()) {
        strip_from(s.skip(7), depth + 1)
    } else if depth > 0 && has_prefix(s, think_close()) {
        strip_from(s.skip(8), (depth - 1) as nat)
    } else if depth == 0 {
        seq![s[0]] + strip_from(s.drop_first(), 0)
    } else {
        strip_from(s.drop_first(), depth)
    }
}

/// `s` with every reasoning block removed: each outermost
/// `<think>`...`</think>` pair goes, with everything between the two tags,
/// nested pairs included.
pub open spec fn strip_blocks(s: Seq<char>) -> Seq<char> {
    strip_from(s, 0)
}

/// What `strip_think_tags` returns for a text with the characters `s`.
pub open spec fn strip_think_spec(s: Seq<char>) -> Seq<char> {
    trim(strip_blocks(s))
}

/// Removes `<think>...</think>` reasoning traces and trims the rest.
///
/// Text outside the traces is kept.  With nested tags the outermost pair
/// is removed, together with everything between it; an unclosed `<think>`
/// drops the rest of the text.
pub fn strip_think_tags(text: &str) -> (r: String)
    ensures
        r@ == strip_think_spec(text@),
{
    let v = chars_of(text);
    let open: Vec<char> = vec!['<', 't', 'h', 'i', 'n', 'k', '>'];
    let close: Vec<char> = vec!['<', '/', 't', 'h', 'i', 'n', 'k', '>'];
    assert(open@ =~= think_open());
    assert(close@ =~= think_close());
    let mut out: Vec<char> = Vec::new();
    let mut i: usize = 0;
    let mut depth: usize = 0;
    assert(v@.skip(0) =~= v@);
    while i < v.len()
        invariant
            i <= v.len(),
            depth <= i,
            open@ == think_open(),
            close@ == think_close(),
            out@ + strip_from(v@.skip(i as int), depth as nat) == strip_blocks(v@),
        decreases v.len() - i,
    {
        let ghost rest = v@.skip(i as int);
        let ghost out0 = out@;
        let at_open = matches_at(&v, &open, i);
        let at_close = matches_at(&v, &close, i);
        proof {
            if i + 7 <= v.len() {
                assert(rest.take(7) =~= v@.subrange(i as int, i + 7));
            }
            if i + 8 <= v.len() {
                assert(rest.take(8) =~= v@.subrange(i as int, i + 8));
            }
            assert(at_open == has_prefix(rest, think_open()));
            assert(at_close == has_prefix(rest, think_close()));
        }
        if at_open {
            assert(rest.skip(7) =~= v@.skip(i + 7));
            i = i + 7;
            depth = depth + 1;
        } else if depth > 0 && at_close {
            assert(rest.skip(8) =~= v@.skip(i + 8));
            i = i + 8;
            depth = depth - 1;
        } else if depth == 0 {
            out.push(v[i]);
            assert(rest.drop_first() =~= v@.skip(i + 1));
            assert(out@ =~= out0 + seq![rest[0]]);
            i = i + 1;
        } else {
            assert(rest.drop_first() =~= v@.skip(i + 1));
            i = i + 1;
        }
    }
    assert(v@.skip(i as int) =~= Seq::<char>::empty());
    assert(out@ =~= strip_blocks(v@));
    let stripped = trim_chars(&out);
    string_of(&stripped)
}

/// The ChatML rendering of a system message and a user message, ending
/// with the opening of the assistant turn.
pub open spec fn chatml_spec(system: Seq<char>, user: Seq<char>) -> Seq<char> {
    "<|im_start|>system\n"@ + system + "<|im_end|>\n<|im_start|>user\n"@ + user
        + "<|im_end|>\n<|im_start|>assistant\n"@
}

/// Wraps a system prompt and a user prompt in ChatML.
pub fn format_chatml(system: &str, user: &str) -> (r: String)
    ensures
        r@ == chatml_spec(system@, user@),
{
    let mut r = String::from_str("<|im_start|>system\n");
    r.append(system);
    r.append("<|im_end|>\n<|im_start|>user\n");
    r.append(user);
    r.append("<|im_end|>\n<|im_start|>assistant\n");
    r
}

} // verus!
