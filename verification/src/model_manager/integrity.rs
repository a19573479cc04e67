//! Integrity checks of model files.

use vstd::prelude::*;
use vstd::string::StringExecFns;
use crate::error::ModelError;
use crate::text::{chars_of, has_prefix, lowercase, starts_with, str_eq, to_lowercase};

verus! {

broadcast use vstd::string::group_string_axioms;

/// Whether a registry digest is a placeholder that is not checked: empty,
/// or beginning with `placeholder`.
pub open spec fn is_placeholder(expected: Seq<char>) -> bool {
    expected.len() == 0 || has_prefix(expected, "placeholder"@)
}

/// Whether the digest `expected` is a placeholder, so that no file digest
/// needs to be computed.
pub fn skips_verification(expected: &str) -> (b: bool)
    ensures
        b == is_placeholder(expected@),
{
    let e = chars_of(expected);
    let p = chars_of("placeholder");
    e.len() == 0 || starts_with(&e, &p)
}

/// Checks a file's hexadecimal SHA-256 digest `actual` against the
/// registry digest `expected`.
///
/// Placeholder digests pass unchecked; otherwise the digests must agree
/// once `expected` is lower-cased, and a mismatch is
/// `ModelError::IntegrityCheck` with both digests.
pub fn verify_sha256(expected: &str, actual: &str) -> (r: Result<bool, ModelError>)
    ensures
        is_placeholder(expected@) ==> r matches Ok(true),
        !is_placeholder(expected@) && actual@ == lowercase(expected@) ==> r matches Ok(true),
        !is_placeholder(expected@) && actual@ != lowercase(expected@) ==> (r matches Err(
            ModelError::IntegrityCheck { expected: e, actual: a },
        ) && e@ == expected@ && a@ == actual@),
{
    if skips_verification(expected) {
        return Ok(true);
    }
    let lower = to_lowercase(expected);
    if str_eq(actual, lower.as_str()) {
        Ok(true)
    } else {
        Err(
            ModelError::IntegrityCheck {
                expected: String::from_str(expected),
                actual: String::from_str(actual),
            },
        )
    }
}

} // verus!
