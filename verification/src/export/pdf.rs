//! PDF export: for now the Markdown document, as UTF-8 bytes, for an
//! outside converter.

use vstd::prelude::*;
use crate::export::{utf8_bytes, ExportData};
use crate::export::markdown::{export_markdown, markdown_text};
use crate::llm::prompt::opt_view;
use crate::models::note::in_chrono_range;

verus! {

/// The bytes of the exported document.
pub fn export_pdf(data: &ExportData) -> (r: Result<Vec<u8>, String>)
    requires
        in_chrono_range(data.note.created_at.secs),
    ensures
        r matches Ok(b) && b@ == vstd::utf8::encode_utf8(
            markdown_text(data.note, data.segments@, opt_view(data.summary)),
        ),
{
    let md = export_markdown(data);
    Ok(utf8_bytes(md))
}

} // verus!
