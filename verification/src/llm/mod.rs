//! Language-model support: prompt assembly, summary templates and the
//! text handling around local generation.

pub mod local;
pub mod prompt;
pub mod templates;

use vstd::prelude::*;

verus! {

/// One generated token of text.
pub struct Token {
    pub text: String,
    pub is_final: bool,
}

} // verus!
