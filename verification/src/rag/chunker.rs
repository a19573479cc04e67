//! Text chunking for retrieval: overlapping runs of words.

use vstd::prelude::*;
use crate::text::{chars_of, find, find_chars, lemma_find_from, join, join_words, split_words, string_of, string_of_range, words};

verus! {

broadcast use vstd::string::group_string_axioms;

/// A chunk of text with its place in the source.
#[derive(Debug, Clone)]
pub struct TextChunk {
    pub text: String,
    pub index: usize,
    pub start_char: usize,
    pub end_char: usize,
}

/// The abstract content of a chunk.
pub struct ChunkView {
    pub text: Seq<char>,
    pub index: nat,
    pub start_char: usize,
    pub end_char: usize,
}

/// The abstract content of a list of chunks.
pub open spec fn chunk_views(v: Seq<TextChunk>) -> Seq<ChunkView> {
    v.map_values(
        |c: TextChunk|
            ChunkView { text: c.text@, index: c.index as nat, start_char: c.start_char, end_char: c.end_char },
    )
}

/// The length in UTF-8 bytes of the first `p` characters of `s`, as
/// `str::len` reports it.
pub open spec fn byte_offset(s: Seq<char>, p: int) -> usize {
    vstd::utf8::encode_utf8(s.take(p)).len() as usize
}

/// The byte index of the first occurrence of `w` in `s`, as `str::find`
/// reports it.
pub open spec fn find_bytes(s: Seq<char>, w: Seq<char>) -> Option<usize> {
    match find(s, w) {
        Some(p) => Some(byte_offset(s, p)),
        None => None,
    }
}

/// The chunks from word `start` on: `size` words each (fewer at the end),
/// starting `step` words apart, until one reaches the last word.  A
/// chunk's span is approximate: it runs from the first occurrence in the
/// text of its first word (0 for the first chunk) to the first occurrence
/// of the word after it (the end of the text for the last chunk).
pub open spec fn chunks_from(
    text: Seq<char>,
    ws: Seq<Seq<char>>,
    size: nat,
    step: nat,
    start: nat,
    index: nat,
) -> Seq<ChunkView>
    decreases ws.len() - start,
{
    if step == 0 || start >= ws.len() {
        Seq::empty()
    } else {
        let n = ws.len();
        let end: nat = if start + size < n { start + size } else { n };
        let total = byte_offset(text, text.len() as int);
        let sc: usize = if start == 0 {
            0
        } else {
            match find_bytes(text, ws[start as int]) {
                Some(b) => b,
                None => 0,
            }
        };
        let ec: usize = if end >= n {
            total
        } else {
            match find_bytes(text, ws[end as int]) {
                Some(b) => b,
                None => total,
            }
        };
        let c = ChunkView {
            text: join(ws.subrange(start as int, end as int), seq![' ']),
            index,
            start_char: sc,
            end_char: ec,
        };
        if end >= n || start + step >= n {
            seq![c]
        } else {
            seq![c] + chunks_from(text, ws, size, step, start + step, index + 1)
        }
    }
}

/// The step between chunk starts: `size - overlap`, at least 1.
pub open spec fn chunk_step(size: nat, overlap: nat) -> nat {
    if size > overlap {
        (size - overlap) as nat
    } else {
        1
    }
}

/// The chunks of a text.
pub open spec fn chunk_spec(text: Seq<char>, size: nat, overlap: nat) -> Seq<ChunkView> {
    chunks_from(text, words(text), size, chunk_step(size, overlap), 0, 0)
}

/// The words a chunk starting at word `first` holds: up to `size` of them.
pub open spec fn chunk_words(ws: Seq<Seq<char>>, size: nat, first: int) -> Seq<Seq<char>> {
    let end: int = if first + size < ws.len() { first + size } else { ws.len() as int };
    ws.subrange(first, end)
}

proof fn lemma_chunks_from_at(
    text: Seq<char>,
    ws: Seq<Seq<char>>,
    size: nat,
    step: nat,
    start: nat,
    index: nat,
    k: int,
)
    requires
        0 <= k < chunks_from(text, ws, size, step, start, index).len(),
    ensures
        start + k * step < ws.len(),
        chunks_from(text, ws, size, step, start, index)[k].index == index + k,
        chunks_from(text, ws, size, step, start, index)[k].text == join(
            chunk_words(ws, size, start + k * step),
            seq![' '],
        ),
    decreases ws.len() - start,
{
    if k > 0 {
        lemma_chunks_from_at(text, ws, size, step, start + step, index + 1, k - 1);
        assert(start + step + (k - 1) * step == start + k * step) by (nonlinear_arith);
    }
}

/// Chunk `k` of a text is the words from word `k * step` on (at most
/// `size` of them, joined with spaces), where `step` is the size less the
/// overlap: consecutive chunks share `overlap` words.
pub proof fn lemma_chunk_at(text: Seq<char>, size: nat, overlap: nat, k: int)
    requires
        0 <= k < chunk_spec(text, size, overlap).len(),
    ensures
        k * chunk_step(size, overlap) < words(text).len(),
        chunk_spec(text, size, overlap)[k].index == k,
        chunk_spec(text, size, overlap)[k].text == join(
            chunk_words(words(text), size, k * chunk_step(size, overlap)),
            seq![' '],
        ),
{
    lemma_chunks_from_at(text, words(text), size, chunk_step(size, overlap), 0, 0, k);
}

proof fn lemma_chunks_from_last(
    text: Seq<char>,
    ws: Seq<Seq<char>>,
    size: nat,
    step: nat,
    start: nat,
    index: nat,
)
    requires
        1 <= step <= size,
        start < ws.len(),
    ensures
        chunks_from(text, ws, size, step, start, index).len() > 0,
        start + (chunks_from(text, ws, size, step, start, index).len() - 1) * step + size >= ws.len(),
    decreases ws.len() - start,
{
    let n = ws.len();
    let end: nat = if start + size < n { start + size } else { n };
    if !(end >= n || start + step >= n) {
        lemma_chunks_from_last(text, ws, size, step, start + step, index + 1);
        let m = chunks_from(text, ws, size, step, start + step, index + 1).len();
        assert(chunks_from(text, ws, size, step, start, index).len() == m + 1);
        assert(start + step + (m - 1) * step == start + m * step) by (nonlinear_arith)
            requires
                m >= 1,
        ;
    }
}

proof fn lemma_chunks_from_not_last(
    text: Seq<char>,
    ws: Seq<Seq<char>>,
    size: nat,
    step: nat,
    start: nat,
    index: nat,
    k: int,
)
    requires
        0 <= k < chunks_from(text, ws, size, step, start, index).len() - 1,
    ensures
        start + k * step + size < ws.len(),
        start + (k + 1) * step < ws.len(),
    decreases ws.len() - start,
{
    let n = ws.len();
    let end: nat = if start + size < n { start + size } else { n };
    assert(!(end >= n || start + step >= n));
    if k > 0 {
        lemma_chunks_from_not_last(text, ws, size, step, start + step, index + 1, k - 1);
        assert(start + step + (k - 1) * step == start + k * step) by (nonlinear_arith);
        assert(start + step + k * step == start + (k + 1) * step) by (nonlinear_arith);
    } else {
        assert((k + 1) * step == step) by (nonlinear_arith)
            requires
                k == 0,
        ;
        assert(k * step == 0) by (nonlinear_arith)
            requires
                k == 0,
        ;
    }
}

/// Chunking stops at the first chunk that reaches the last word: every
/// chunk but the last ends before the last word, and the next one starts
/// at a word of the text; so no chunk lies wholly inside the one before.
pub proof fn lemma_only_last_chunk_reaches_end(text: Seq<char>, size: nat, overlap: nat, k: int)
    requires
        0 <= k < chunk_spec(text, size, overlap).len() - 1,
    ensures
        k * chunk_step(size, overlap) + size < words(text).len(),
        (k + 1) * chunk_step(size, overlap) < words(text).len(),
{
    lemma_chunks_from_not_last(text, words(text), size, chunk_step(size, overlap), 0, 0, k);
}

/// The chunks cover the text: a text with words has chunks, and the last
/// chunk runs to the last word (for chunks of at least one word).
pub proof fn lemma_chunks_cover(text: Seq<char>, size: nat, overlap: nat)
    requires
        size >= 1,
        words(text).len() > 0,
    ensures
        chunk_spec(text, size, overlap).len() > 0,
        (chunk_spec(text, size, overlap).len() - 1) * chunk_step(size, overlap) + size >= words(text).len(),
{
    lemma_chunks_from_last(text, words(text), size, chunk_step(size, overlap), 0, 0);
}

/// Splits text into chunks of `chunk_size` words overlapping by `overlap`
/// words.
pub struct TextChunker {
    chunk_size: usize,
    overlap: usize,
}

impl TextChunker {
    pub closed spec fn size(&self) -> nat {
        self.chunk_size as nat
    }

    pub closed spec fn overlap_words(&self) -> nat {
        self.overlap as nat
    }

    /// A chunker for chunks of `chunk_size` words overlapping by `overlap`
    /// words (the caller derives the overlap from a ratio of the size).
    pub fn with_overlap(chunk_size: usize, overlap: usize) -> (c: Self)
        ensures
            c.size() == chunk_size,
            c.overlap_words() == overlap,
    {
        TextChunker { chunk_size, overlap }
    }

    /// The retrieval default: 512 words with a quarter (128 words) overlap.
    pub fn default_rag() -> (c: Self)
        ensures
            c.size() == 512,
            c.overlap_words() == 128,
    {
        Self::with_overlap(512, 128)
    }

    /// The chunks of a text, in order.
    pub fn chunk(&self, text: &str) -> (r: Vec<TextChunk>)
        ensures
            chunk_views(r@) == chunk_spec(text@, self.size(), self.overlap_words()),
    {
        let tc = chars_of(text);
        let (ws, _starts) = split_words(&tc);
        let ghost wv = ws@.map_values(|w: Vec<char>| w@);
        let n = ws.len();
        let mut out: Vec<TextChunk> = Vec::new();
        if n == 0 {
            assert(chunk_views(out@) =~= chunk_spec(text@, self.size(), self.overlap_words()));
            return out;
        }
        let step: usize = if self.chunk_size > self.overlap { self.chunk_size - self.overlap } else { 1 };
        let total = text.len();
        assert(total == byte_offset(tc@, tc@.len() as int)) by {
            assert(tc@.take(tc@.len() as int) =~= tc@);
        }
        let mut start: usize = 0;
        let mut index: usize = 0;
        let ghost size = self.chunk_size as nat;
        loop
            invariant_except_break
                chunk_views(out@) + chunks_from(text@, wv, size, step as nat, start as nat, index as nat)
                    == chunk_spec(text@, self.size(), self.overlap_words()),
            invariant
                n == ws.len() == wv.len() > 0,
                wv == ws@.map_values(|w: Vec<char>| w@),
                wv == words(text@),
                tc@ == text@,
                size == self.chunk_size,
                step == chunk_step(self.chunk_size as nat, self.overlap as nat),
                step >= 1,
                total == byte_offset(text@, text@.len() as int),
                start < n,
                index <= start,
            ensures
                chunk_views(out@) == chunk_spec(text@, self.size(), self.overlap_words()),
            decreases n - start,
        {
            let end: usize = if self.chunk_size < n - start {
                start + self.chunk_size
            } else {
                n
            };
            assert(end == if start + size < n { start + size } else { n as int });
            let joined = join_words(&ws, start, end);
            let chunk_text = string_of(&joined);
            let start_char: usize = if start == 0 {
                0
            } else {
                match find_chars(&tc, &ws[start]) {
                    Some(p) => {
                        proof {
                            lemma_find_from(tc@, ws@[start as int]@, 0);
                        }
                        prefix_bytes(&tc, p)
                    },
                    None => 0,
                }
            };
            let end_char: usize = if end >= n {
                total
            } else {
                match find_chars(&tc, &ws[end]) {
                    Some(p) => {
                        proof {
                            lemma_find_from(tc@, ws@[end as int]@, 0);
                        }
                        prefix_bytes(&tc, p)
                    },
                    None => total,
                }
            };
            let ghost c = ChunkView {
                text: join(wv.subrange(start as int, end as int), seq![' ']),
                index: index as nat,
                start_char,
                end_char,
            };
            let ghost out0 = out@;
            out.push(TextChunk { text: chunk_text, index, start_char, end_char });
            assert(chunk_views(out@) =~= chunk_views(out0).push(c));
            if end >= n || step >= n - start {
                assert(chunks_from(text@, wv, size, step as nat, start as nat, index as nat) =~= seq![c]);
                assert(chunk_views(out@) == chunk_spec(text@, self.size(), self.overlap_words()));
                break;
            }
            assert(chunks_from(text@, wv, size, step as nat, start as nat, index as nat) =~= seq![c]
                + chunks_from(text@, wv, size, step as nat, (start + step) as nat, (index + 1) as nat));
            start = start + step;
            index = index + 1;
        }
        out
    }
}

/// The byte length of the first `p` characters of `v`.
fn prefix_bytes(v: &Vec<char>, p: usize) -> (b: usize)
    requires
        p <= v.len(),
    ensures
        b == byte_offset(v@, p as int),
{
    let s = string_of_range(v, 0, p);
    assert(v@.subrange(0, p as int) =~= v@.take(p as int));
    s.as_str().len()
}

} // verus!
