//! The text side of "Ask VoxNote": the context built from the retrieved
//! chunks, the prompt for the model, the answer when nothing was found and
//! the list of source notes.  Embedding, similarity scoring and the model
//! call belong to the application.

use vstd::prelude::*;
use vstd::string::StringExecFns;
use crate::text::{chars_of, extend_str, join, join_with, str_eq, string_of};

verus! {

broadcast use vstd::string::group_string_axioms;

/// An answer with the notes it draws on.
#[derive(Debug, Clone)]
pub struct RagAnswer {
    pub answer: String,
    pub sources: Vec<String>,
}

/// The answer given when no stored chunk matches the question.
pub const NO_INFORMATION: &'static str = "No relevant information found in your notes.";

/// The token budget of the answering request.
pub const ANSWER_MAX_TOKENS: usize = 1024;

/// One retrieved chunk in the context: its note, then its text.
pub open spec fn source_block(note_id: Seq<char>, text: Seq<char>) -> Seq<char> {
    "[Source: "@ + note_id + "]\n"@ + text
}

/// The context of the retrieved hits `(note id, chunk text)`, best first,
/// separated by horizontal rules.
pub open spec fn context_spec(hits: Seq<(Seq<char>, Seq<char>)>) -> Seq<char> {
    join(
        hits.map_values(|h: (Seq<char>, Seq<char>)| source_block(h.0, h.1)),
        "\n\n---\n\n"@,
    )
}

/// The views of a list of hits.
pub open spec fn hit_views(hits: Seq<(String, String)>) -> Seq<(Seq<char>, Seq<char>)> {
    hits.map_values(|h: (String, String)| (h.0@, h.1@))
}

/// The prompt that asks the model to answer `question` from `context`.
pub open spec fn prompt_spec(context: Seq<char>, question: Seq<char>) -> Seq<char> {
    "Based on the following meeting notes, answer the question. Cite specific sources when possible.\n\n## Context\n"@
        + context + "\n\n## Question\n"@ + question + "\n\n## Answer"@
}

/// The context of the retrieved hits `(note id, chunk text)`.
pub fn build_context(hits: &Vec<(String, String)>) -> (r: String)
    ensures
        r@ == context_spec(hit_views(hits@)),
{
    let mut blocks: Vec<Vec<char>> = Vec::new();
    let mut i: usize = 0;
    while i < hits.len()
        invariant
            i <= hits.len(),
            blocks.len() == i,
            forall|k: int|
                0 <= k < i ==> #[trigger] blocks@[k]@ == source_block(hits@[k].0@, hits@[k].1@),
        decreases hits.len() - i,
    {
        let mut b: Vec<char> = Vec::new();
        extend_str(&mut b, "[Source: ");
        extend_str(&mut b, hits[i].0.as_str());
        extend_str(&mut b, "]\n");
        extend_str(&mut b, hits[i].1.as_str());
        blocks.push(b);
        i += 1;
    }
    let sep = chars_of("\n\n---\n\n");
    let out = join_with(&blocks, &sep);
    assert(blocks@.map_values(|w: Vec<char>| w@) =~= hit_views(hits@).map_values(
        |h: (Seq<char>, Seq<char>)| source_block(h.0, h.1),
    ));
    string_of(&out)
}

/// The prompt that asks the model to answer `question` from `context`.
pub fn answer_prompt(context: &str, question: &str) -> (r: String)
    ensures
        r@ == prompt_spec(context@, question@),
{
    let mut r = String::from_str(
        "Based on the following meeting notes, answer the question. Cite specific sources when possible.\n\n## Context\n",
    );
    r.append(context);
    r.append("\n\n## Question\n");
    r.append(question);
    r.append("\n\n## Answer");
    r
}

/// What to do with the retrieved hits: `None` when there are none (the
/// answer is then `NO_INFORMATION` with no sources), else the prompt for
/// the model.
pub fn answer_request(hits: &Vec<(String, String)>, question: &str) -> (r: Option<String>)
    ensures
        hits@.len() == 0 <==> r is None,
        r matches Some(p) ==> p@ == prompt_spec(context_spec(hit_views(hits@)), question@),
{
    let context = build_context(hits);
    if context.as_str().is_empty() {
        if hits.len() > 0 {
            proof {
                lemma_context_nonempty(hit_views(hits@));
            }
        }
        return None;
    }
    if hits.len() == 0 {
        assert(hit_views(hits@) =~= Seq::<(Seq<char>, Seq<char>)>::empty());
    }
    Some(answer_prompt(context.as_str(), question))
}

/// A non-empty list of hits has a non-empty context.
proof fn lemma_context_nonempty(hits: Seq<(Seq<char>, Seq<char>)>)
    requires
        hits.len() > 0,
    ensures
        context_spec(hits).len() > 0,
    decreases hits.len(),
{
    let blocks = hits.map_values(|h: (Seq<char>, Seq<char>)| source_block(h.0, h.1));
    assert(blocks.last() == source_block(hits.last().0, hits.last().1));
    reveal_strlit("[Source: ");
    if hits.len() > 1 {
        assert(blocks.drop_last() =~= hits.drop_last().map_values(
            |h: (Seq<char>, Seq<char>)| source_block(h.0, h.1),
        ));
    }
}

/// The answer when no stored chunk matches.
pub fn no_information() -> (a: RagAnswer)
    ensures
        a.answer@ == NO_INFORMATION@,
        a.sources@.len() == 0,
{
    RagAnswer { answer: String::from_str(NO_INFORMATION), sources: Vec::new() }
}

/// Whether some string of `v` has the characters `s`.
pub open spec fn has_text(v: Seq<String>, s: Seq<char>) -> bool {
    exists|i: int| 0 <= i < v.len() && (#[trigger] v[i])@ == s
}

/// The characters of each string.
pub open spec fn text_views(v: Seq<String>) -> Seq<Seq<char>> {
    v.map_values(|s: String| s@)
}

/// The texts of `s`, each once, in the order of their first occurrence.
pub open spec fn first_occurrences(s: Seq<Seq<char>>) -> Seq<Seq<char>>
    decreases s.len(),
{
    if s.len() == 0 {
        s
    } else {
        let d = first_occurrences(s.drop_last());
        if d.contains(s.last()) {
            d
        } else {
            d.push(s.last())
        }
    }
}

/// The distinct note ids of `ids`, each once, in the order of their first
/// occurrence.
pub fn distinct_sources(ids: &Vec<String>) -> (r: Vec<String>)
    ensures
        text_views(r@) == first_occurrences(text_views(ids@)),
        forall|i: int, j: int| 0 <= i < j < r@.len() ==> (#[trigger] r@[i])@ != (#[trigger] r@[j])@,
        forall|s: Seq<char>| has_text(r@, s) <==> has_text(ids@, s),
{
    let mut out: Vec<String> = Vec::new();
    let mut i: usize = 0;
    while i < ids.len()
        invariant
            i <= ids.len(),
            forall|a: int, b: int|
                0 <= a < b < out@.len() ==> (#[trigger] out@[a])@ != (#[trigger] out@[b])@,
            forall|s: Seq<char>| has_text(out@, s) <==> has_text(ids@.take(i as int), s),
            text_views(out@) == first_occurrences(text_views(ids@.take(i as int))),
        decreases ids.len() - i,
    {
        let mut seen = false;
        let mut k: usize = 0;
        while k < out.len()
            invariant
                i < ids.len(),
                k <= out.len(),
                seen <==> exists|m: int| 0 <= m < k && (#[trigger] out@[m])@ == ids@[i as int]@,
            decreases out.len() - k,
        {
            if str_eq(out[k].as_str(), ids[i].as_str()) {
                seen = true;
            }
            k += 1;
        }
        let ghost before = out@;
        let ghost t = ids@.take(i as int);
        let ghost t1 = ids@.take(i + 1);
        assert(t1 =~= t.push(ids@[i as int]));
        proof {
            let tv1 = text_views(t1);
            assert(tv1.drop_last() =~= text_views(t));
            assert(tv1.last() == ids@[i as int]@);
            let d = text_views(before);
            if seen {
                let m = choose|m: int| 0 <= m < k && (#[trigger] out@[m])@ == ids@[i as int]@;
                assert(d[m] == ids@[i as int]@);
                assert(d.contains(ids@[i as int]@));
            } else {
                assert forall|m: int| 0 <= m < d.len() implies d[m] != ids@[i as int]@ by {
                    assert(d[m] == before[m]@);
                }
                assert(!d.contains(ids@[i as int]@));
            }
        }
        if !seen {
            out.push(String::from_str(ids[i].as_str()));
            assert(out@ =~= before.push(out@[before.len() as int]));
            assert(text_views(out@) =~= text_views(before).push(ids@[i as int]@));
        }
        assert forall|s: Seq<char>| has_text(out@, s) <==> has_text(t1, s) by {
            assert(has_text(before, s) <==> has_text(t, s));
            if has_text(t1, s) {
                let j = choose|j: int| 0 <= j < t1.len() && (#[trigger] t1[j])@ == s;
                if j < i {
                    assert(t[j] == t1[j]);
                    assert(has_text(t, s));
                    let m = choose|m: int| 0 <= m < before.len() && (#[trigger] before[m])@ == s;
                    assert(out@[m] == before[m]);
                } else if !seen {
                    assert(out@[before.len() as int]@ == s);
                } else {
                    let m = choose|m: int| 0 <= m < before.len() && (#[trigger] before[m])@ == ids@[i as int]@;
                    assert(out@[m] == before[m]);
                }
            }
            if has_text(out@, s) {
                let m = choose|m: int| 0 <= m < out@.len() && (#[trigger] out@[m])@ == s;
                if m < before.len() {
                    assert(out@[m] == before[m]);
                    assert(has_text(before, s));
                    let j = choose|j: int| 0 <= j < t.len() && (#[trigger] t[j])@ == s;
                    assert(t1[j] == t[j]);
                } else {
                    assert(t1[i as int] == ids@[i as int]);
                }
            }
        }
        i += 1;
    }
    assert(ids@.take(ids.len() as int) =~= ids@);
    out
}

/// The answer of the model with the distinct notes of the hits it was
/// given, `ids`.
pub fn answer_with_sources(answer: String, ids: &Vec<String>) -> (a: RagAnswer)
    ensures
        a.answer@ == answer@,
        text_views(a.sources@) == first_occurrences(text_views(ids@)),
        forall|i: int, j: int|
            0 <= i < j < a.sources@.len() ==> (#[trigger] a.sources@[i])@ != (#[trigger] a.sources@[j])@,
        forall|s: Seq<char>| has_text(a.sources@, s) <==> has_text(ids@, s),
{
    RagAnswer { answer, sources: distinct_sources(ids) }
}

} // verus!
