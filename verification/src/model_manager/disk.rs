//! The model cache on disk.

use vstd::prelude::*;
use crate::error::ModelError;
use crate::model_manager::paths::{join_path, joined_path, path_exists};
use crate::text::{
    chars_of, ends_with, find_chars_from, has_suffix, occurs_at, lemma_find_from, lemma_find_from_skip, lines, parse_u64,
    parse_u64_spec, split_words, words,
};

verus! {

/// One mebibyte.
pub const MIB: u64 = 1_048_576;

/// The model directory and its size limit.
pub struct DiskManager {
    models_dir: std::path::PathBuf,
    max_cache_mb: u64,
}

/// The outcome of a space check: `used + needed` bytes must fit within
/// `max_mb` mebibytes; otherwise the error gives the need and what is left,
/// in whole mebibytes.
pub open spec fn space_check(max_mb: u64, used: u64, needed: u64) -> Option<(u64, u64)> {
    let max: int = max_mb * MIB;
    let left: int = if max >= used { max - used } else { 0int };
    if used + needed > max {
        Some(((needed / MIB) as u64, (left / (MIB as int)) as u64))
    } else {
        None
    }
}

/// Free disk space in whole mebibytes, of `free_bytes` bytes free.
pub fn space_mb(free_bytes: u64) -> (mb: u64)
    ensures
        mb == free_bytes / MIB,
{
    free_bytes / MIB
}

/// The free space that `df -P -k` reports for one file system: the
/// fourth field ("Available", in KiB) of the second line, in bytes; `None`
/// when the report has no such number or the bytes overflow a `u64`.
pub open spec fn df_free_bytes_spec(report: Seq<char>) -> Option<u64> {
    let ls = lines(report);
    if ls.len() >= 2 && words(ls[1]).len() >= 4 {
        match parse_u64_spec(words(ls[1])[3]) {
            Some(k) => if k * 1024 <= u64::MAX {
                Some((k * 1024) as u64)
            } else {
                None
            },
            None => None,
        }
    } else {
        None
    }
}

/// Reads the free space in bytes from a `df -P -k` report.
pub fn df_free_bytes(report: &str) -> (r: Option<u64>)
    ensures
        r == df_free_bytes_spec(report@),
{
    let v = chars_of(report);
    let nl: Vec<char> = vec!['\n'];
    assert(nl@ =~= seq!['\n']);
    let first = find_chars_from(&v, &nl, 0);
    proof {
        lemma_find_from(v@, seq!['\n'], 0);
    }
    let p = match first {
        None => {
            assert(lines(v@).len() <= 1);
            return None;
        },
        Some(p) => p,
    };
    assert(occurs_at(v@, seq!['\n'], p as int));
    assert(p < v.len());
    let ghost rest = v@.skip(p + 1);
    assert(lines(v@) == seq![v@.take(p as int)] + lines(rest));
    let second = find_chars_from(&v, &nl, p + 1);
    proof {
        lemma_find_from_skip(v@, seq!['\n'], p + 1, 0);
        lemma_find_from(rest, seq!['\n'], 0);
    }
    let end = match second {
        Some(q) => q,
        None => v.len(),
    };
    if end == p + 1 && second.is_none() {
        assert(rest =~= Seq::<char>::empty());
        assert(lines(rest) =~= Seq::<Seq<char>>::empty());
        assert(lines(v@).len() == 1);
        return None;
    }
    let mut line: Vec<char> = Vec::new();
    let mut k = p + 1;
    while k < end
        invariant
            p + 1 <= k <= end <= v.len(),
            line@ == v@.subrange(p + 1, k as int),
        decreases end - k,
    {
        line.push(v[k]);
        k += 1;
        assert(line@ =~= v@.subrange(p + 1, k as int));
    }
    proof {
        match second {
            Some(q) => {
                assert(rest.take(q - (p + 1)) =~= line@);
                assert(lines(rest)[0] == line@);
            },
            None => {
                assert(rest =~= line@);
                assert(lines(rest) =~= seq![rest]);
            },
        }
        assert(lines(v@)[1] == line@);
    }
    let (ws, _starts) = split_words(&line);
    assert(ws@.map_values(|w: Vec<char>| w@) == words(line@));
    if ws.len() < 4 {
        return None;
    }
    assert(ws@[3]@ == words(line@)[3]);
    match parse_u64(&ws[3]) {
        None => None,
        Some(kib) => {
            if kib > u64::MAX / 1024 {
                None
            } else {
                Some(kib * 1024)
            }
        },
    }
}

/// Whether a file of the model directory is a model: anything but an
/// unfinished download (`.partial`).
pub fn lists_as_model(file_name: &str) -> (b: bool)
    ensures
        b == !has_suffix(file_name@, ".partial"@),
{
    let suffix = chars_of(".partial");
    !ends_with(&chars_of(file_name), &suffix)
}

impl DiskManager {
    /// The size limit of the cache, in mebibytes.
    pub closed spec fn cache_limit_mb(&self) -> u64 {
        self.max_cache_mb
    }

    /// The model directory.
    pub closed spec fn dir(&self) -> std::path::PathBuf {
        self.models_dir
    }

    /// The size limit of the cache, in mebibytes.
    pub fn max_cache_mb(&self) -> (mb: u64)
        ensures
            mb == self.cache_limit_mb(),
    {
        self.max_cache_mb
    }

    pub fn new(models_dir: std::path::PathBuf, max_cache_mb: u64) -> (d: Self)
        ensures
            d.cache_limit_mb() == max_cache_mb,
            d.dir() == models_dir,
    {
        DiskManager { models_dir, max_cache_mb }
    }

    /// The model directory.
    pub fn models_dir(&self) -> (d: &std::path::PathBuf)
        ensures
            *d == self.dir(),
    {
        &self.models_dir
    }

    /// The path of a model file: the model id joined to the model directory.
    pub fn model_path(&self, model_id: &str) -> (p: std::path::PathBuf)
        ensures
            p == joined_path(self.dir(), model_id@),
    {
        join_path(&self.models_dir, model_id)
    }

    /// Whether the model file is present.
    pub fn is_downloaded(&self, model_id: &str) -> bool {
        path_exists(&self.model_path(model_id))
    }

    /// Whether `needed_bytes` more fit in the cache, which holds
    /// `used_bytes` now.
    pub fn check_space(&self, used_bytes: u64, needed_bytes: u64) -> (r: Result<(), ModelError>)
        requires
            self.cache_limit_mb() * MIB <= u64::MAX,
            used_bytes + needed_bytes <= u64::MAX,
        ensures
            space_check(self.cache_limit_mb(), used_bytes, needed_bytes) is None ==> r is Ok,
            space_check(self.cache_limit_mb(), used_bytes, needed_bytes) matches Some((need, avail))
                ==> (r matches Err(ModelError::InsufficientDisk { need_mb, available_mb })
                && need_mb == need && available_mb == avail),
    {
        let max_bytes = self.max_cache_mb * MIB;
        if used_bytes + needed_bytes > max_bytes {
            let left = max_bytes.saturating_sub(used_bytes);
            return Err(
                ModelError::InsufficientDisk { need_mb: needed_bytes / MIB, available_mb: left / MIB },
            );
        }
        Ok(())
    }
}

} // verus!
