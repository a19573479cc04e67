//! Export of notes as Markdown, PDF and DOCX.

pub mod docx;
pub mod markdown;
pub mod pdf;

use vstd::prelude::*;
use crate::models::{Note, Segment};

verus! {

/// The export formats.
#[derive(Debug, Clone, Copy, PartialEq, Eq, Structural)]
pub enum ExportFormat {
    Markdown,
    Pdf,
    Docx,
}

/// What is exported: a note, its transcript and its summary.
pub struct ExportData {
    pub note: Note,
    pub segments: Vec<Segment>,
    pub summary: Option<String>,
}

/// The UTF-8 bytes of a string.
pub fn utf8_bytes(s: String) -> (b: Vec<u8>)
    ensures
        b@ == vstd::utf8::encode_utf8(s@),
{
    let bytes = s.as_str().as_bytes();
    let mut out: Vec<u8> = Vec::new();
    let mut i: usize = 0;
    while i < bytes.len()
        invariant
            i <= bytes.len(),
            out@ == bytes@.take(i as int),
        decreases bytes.len() - i,
    {
        out.push(bytes[i]);
        i += 1;
        assert(out@ =~= bytes@.take(i as int));
    }
    assert(bytes@.take(bytes.len() as int) =~= bytes@);
    out
}

} // verus!
