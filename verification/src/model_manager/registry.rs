//! The model registry: the models that can be downloaded.

use vstd::prelude::*;
use crate::text::{chars_of, chars_eq, dec_digits, push_decimal, string_of};

verus! {

broadcast use vstd::string::group_string_axioms;

/// The engine a model is for.
#[derive(Debug, Clone, Copy, PartialEq, Eq, Structural)]
pub enum ModelType {
    Stt,
    Llm,
    Tts,
    Diarization,
    Embedding,
}

/// A registry entry.
#[derive(Debug, Clone)]
pub struct ModelEntry {
    pub id: String,
    pub name: String,
    pub model_type: ModelType,
    pub size_bytes: u64,
    pub quantization: Option<String>,
    pub languages: Vec<String>,
    pub min_ram_mb: u32,
    pub gpu_recommended: bool,
    pub download_url: String,
    pub sha256: String,
    pub description: Option<String>,
}

/// The registry: all known models, in file order.
#[derive(Debug, Clone)]
pub struct ModelRegistry {
    pub models: Vec<ModelEntry>,
}

/// The entries a list of references points to.
pub open spec fn derefs(v: Seq<&ModelEntry>) -> Seq<ModelEntry> {
    v.map_values(|m: &ModelEntry| *m)
}

/// The first index in `models` whose id is `id`, at or after `i`.
pub open spec fn first_with_id(models: Seq<ModelEntry>, id: Seq<char>, i: int) -> Option<int>
    decreases models.len() - i,
{
    if i < 0 || i >= models.len() {
        None
    } else if models[i].id@ == id {
        Some(i)
    } else {
        first_with_id(models, id, i + 1)
    }
}

/// `x / den` rounded to the nearest integer, ties to the even one.
pub open spec fn round_half_even(x: nat, den: nat) -> nat
    recommends
        den > 0,
{
    let q = x / den;
    let r = x % den;
    if 2 * r > den {
        q + 1
    } else if 2 * r < den {
        q
    } else if q % 2 == 0 {
        q
    } else {
        q + 1
    }
}

/// The human-readable size of a model: gibibytes with one decimal from
/// 1 GiB on, otherwise whole mebibytes; rounded to nearest, ties to even,
/// as `{:.1}` and `{:.0}` format the exact quotients.
pub open spec fn size_text(size: nat) -> Seq<char> {
    if size >= 0x4000_0000 {
        let q = round_half_even(size * 10, 0x4000_0000);
        dec_digits(q / 10) + seq!['.'] + dec_digits(q % 10) + seq![' ', 'G', 'B']
    } else {
        dec_digits(round_half_even(size, 0x10_0000)) + seq![' ', 'M', 'B']
    }
}

fn round_half_even_exec(x: u128, den: u128) -> (q: u64)
    requires
        0 < den <= 0x1_0000_0000_0000_0000,
        x / den < u64::MAX,
    ensures
        q == round_half_even(x as nat, den as nat),
{
    let q = x / den;
    let r = x % den;
    let q64 = q as u64;
    if 2 * r > den {
        q64 + 1
    } else if 2 * r < den {
        q64
    } else if q64 % 2 == 0 {
        q64
    } else {
        q64 + 1
    }
}

impl ModelEntry {
    /// The model's size for display, e.g. `74 MB` or `1.5 GB`.
    pub fn size_display(&self) -> (s: String)
        ensures
            s@ == size_text(self.size_bytes as nat),
    {
        let size = self.size_bytes as u128;
        let mut out: Vec<char> = Vec::new();
        if size >= 0x4000_0000 {
            assert(size * 10 / 0x4000_0000 < u64::MAX) by (nonlinear_arith)
                requires
                    size <= u64::MAX,
            ;
            let q = round_half_even_exec(size * 10, 0x4000_0000);
            push_decimal(&mut out, q / 10);
            out.push('.');
            push_decimal(&mut out, q % 10);
            out.push(' ');
            out.push('G');
            out.push('B');
        } else {
            let q = round_half_even_exec(size, 0x10_0000);
            push_decimal(&mut out, q);
            out.push(' ');
            out.push('M');
            out.push('B');
        }
        assert(out@ =~= size_text(self.size_bytes as nat));
        string_of(&out)
    }
}

impl ModelRegistry {
    /// The models for one engine, in registry order.
    pub fn models_by_type(&self, model_type: &ModelType) -> (r: Vec<&ModelEntry>)
        ensures
            derefs(r@) == self.models@.filter(|m: ModelEntry| m.model_type == *model_type),
    {
        let ghost pred = |m: ModelEntry| m.model_type == *model_type;
        let mut r: Vec<&ModelEntry> = Vec::new();
        let mut i: usize = 0;
        assert(derefs(r@) =~= self.models@.take(0).filter(pred)) by {
            reveal(Seq::filter);
        }
        while i < self.models.len()
            invariant
                i <= self.models.len(),
                pred == (|m: ModelEntry| m.model_type == *model_type),
                derefs(r@) == self.models@.take(i as int).filter(pred),
            decreases self.models.len() - i,
        {
            assert(self.models@.take(i + 1).drop_last() =~= self.models@.take(i as int));
            let ghost r0 = r@;
            let m = &self.models[i];
            let ghost s = self.models@.take(i + 1);
            assert(s.last() == *m);
            assert(s.len() > 0);
            reveal(Seq::filter);
            assert(s.filter(pred) == (if pred(s.last()) {
                s.drop_last().filter(pred).push(s.last())
            } else {
                s.drop_last().filter(pred)
            }));
            if m.model_type == *model_type {
                r.push(m);
                assert(derefs(r@) =~= derefs(r0).push(*m));
            }
            i += 1;
            assert(derefs(r@) =~= self.models@.take(i as int).filter(pred));
        }
        assert(self.models@.take(i as int) =~= self.models@);
        r
    }

    /// The first model with the given id.
    pub fn get_model(&self, id: &str) -> (r: Option<&ModelEntry>)
        ensures
            r matches Some(m) ==> first_with_id(self.models@, id@, 0) matches Some(k) && *m
                == self.models@[k],
            r is None ==> first_with_id(self.models@, id@, 0) is None,
    {
        let want = chars_of(id);
        let mut i: usize = 0;
        while i < self.models.len()
            invariant
                i <= self.models.len(),
                want@ == id@,
                first_with_id(self.models@, id@, 0) == first_with_id(self.models@, id@, i as int),
            decreases self.models.len() - i,
        {
            let have = chars_of(self.models[i].id.as_str());
            if chars_eq(&have, &want) {
                return Some(&self.models[i]);
            }
            i += 1;
        }
        None
    }

    /// The models that run within the given memory, in registry order.
    pub fn models_for_ram(&self, available_ram_mb: u32) -> (r: Vec<&ModelEntry>)
        ensures
            derefs(r@) == self.models@.filter(|m: ModelEntry| m.min_ram_mb <= available_ram_mb),
    {
        let ghost pred = |m: ModelEntry| m.min_ram_mb <= available_ram_mb;
        let mut r: Vec<&ModelEntry> = Vec::new();
        let mut i: usize = 0;
        assert(derefs(r@) =~= self.models@.take(0).filter(pred)) by {
            reveal(Seq::filter);
        }
        while i < self.models.len()
            invariant
                i <= self.models.len(),
                pred == (|m: ModelEntry| m.min_ram_mb <= available_ram_mb),
                derefs(r@) == self.models@.take(i as int).filter(pred),
            decreases self.models.len() - i,
        {
            assert(self.models@.take(i + 1).drop_last() =~= self.models@.take(i as int));
            let ghost r0 = r@;
            let m = &self.models[i];
            let ghost s = self.models@.take(i + 1);
            assert(s.last() == *m);
            assert(s.len() > 0);
            reveal(Seq::filter);
            assert(s.filter(pred) == (if pred(s.last()) {
                s.drop_last().filter(pred).push(s.last())
            } else {
                s.drop_last().filter(pred)
            }));
            if m.min_ram_mb <= available_ram_mb {
                r.push(m);
                assert(derefs(r@) =~= derefs(r0).push(*m));
            }
            i += 1;
            assert(derefs(r@) =~= self.models@.take(i as int).filter(pred));
        }
        assert(self.models@.take(i as int) =~= self.models@);
        r
    }
}

} // verus!
