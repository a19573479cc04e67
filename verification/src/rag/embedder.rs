//! The word-hashing embedder.
//!
//! Each word of a text is hashed into one of `dimension` buckets; the
//! normalised bucket counts (floating point, computed outside the
//! library) are the embedding.

use vstd::prelude::*;
use vstd::string::StringSliceAdditionalSpecFns;
use crate::text::{chars_of, split_words, string_of, words};

verus! {

broadcast use vstd::string::group_string_axioms;

/// The rolling hash of a byte sequence: `h = h * 31 + b` over the bytes,
/// wrapping at the width of `usize`.
pub open spec fn hash_bytes(b: Seq<u8>) -> usize
    decreases b.len(),
{
    if b.len() == 0 {
        0
    } else {
        vstd::wrapping::usize_specs::wrapping_add(
            vstd::wrapping::usize_specs::wrapping_mul(hash_bytes(b.drop_last()), 31),
            b.last() as usize,
        )
    }
}

/// The hash of a word: its UTF-8 bytes, hashed.
pub fn simple_hash(s: &str) -> (h: usize)
    ensures
        h == hash_bytes(s.spec_bytes()),
{
    let bytes = s.as_bytes();
    let mut acc: usize = 0;
    let mut i: usize = 0;
    while i < bytes.len()
        invariant
            i <= bytes.len(),
            acc == hash_bytes(bytes@.take(i as int)),
        decreases bytes.len() - i,
    {
        assert(bytes@.take(i + 1).drop_last() =~= bytes@.take(i as int));
        acc = acc.wrapping_mul(31).wrapping_add(bytes[i] as usize);
        i += 1;
    }
    assert(bytes@.take(bytes.len() as int) =~= bytes@);
    acc
}

/// The bucket of each word, in order.
pub open spec fn word_buckets(ws: Seq<Seq<char>>, dimension: usize) -> Seq<usize> {
    ws.map_values(|w: Seq<char>| (hash_bytes(vstd::utf8::encode_utf8(w)) % dimension) as usize)
}

/// Hashes words into a fixed number of buckets.
pub struct SimpleEmbedder {
    dimension: usize,
}

impl SimpleEmbedder {
    pub closed spec fn dim(&self) -> usize {
        self.dimension
    }

    pub fn new(dimension: usize) -> (e: Self)
        ensures
            e.dim() == dimension,
    {
        SimpleEmbedder { dimension }
    }

    /// The number of buckets.
    pub fn dimension(&self) -> (d: usize)
        ensures
            d == self.dim(),
    {
        self.dimension
    }

    pub fn name(&self) -> (n: &'static str)
        ensures
            n@ == "simple-tfidf"@,
    {
        "simple-tfidf"
    }

    /// The bucket of each word of `text`, in order; the embedding counts
    /// the words per bucket.
    pub fn buckets(&self, text: &str) -> (r: Vec<usize>)
        requires
            words(text@).len() > 0 ==> self.dim() > 0,
        ensures
            r@ == word_buckets(words(text@), self.dim()),
    {
        let tc = chars_of(text);
        let (ws, _starts) = split_words(&tc);
        let ghost wv = ws@.map_values(|w: Vec<char>| w@);
        assert(wv.len() == ws.len());
        let mut r: Vec<usize> = Vec::new();
        let mut i: usize = 0;
        while i < ws.len()
            invariant
                i <= ws.len(),
                ws.len() > 0 ==> self.dim() > 0,
                wv == ws@.map_values(|w: Vec<char>| w@),
                r@ == word_buckets(wv.take(i as int), self.dim()),
            decreases ws.len() - i,
        {
            let w = string_of(&ws[i]);
            let h = simple_hash(w.as_str());
            r.push(h % self.dimension);
            i += 1;
            assert(r@ =~= word_buckets(wv.take(i as int), self.dim()));
        }
        assert(wv.take(ws.len() as int) =~= wv);
        r
    }
}

} // verus!
