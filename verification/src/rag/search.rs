//! Search-hit origins.

use vstd::prelude::*;

verus! {

/// Where a search hit came from.
#[derive(Debug, Clone, Copy, PartialEq, Eq, Structural)]
pub enum SearchSource {
    Vector,
    Keyword,
    Hybrid,
}

} // verus!
