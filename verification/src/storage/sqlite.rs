//! Row types of the note store and the text encoding of note states.

use vstd::prelude::*;
use vstd::string::StringExecFns;
use crate::ids::{new_uuid_string, uuid_v4_text};
use crate::models::note::{now, NoteStatus, Timestamp};
use crate::text::str_eq;

verus! {

broadcast use vstd::string::group_string_axioms;

/// A provider-configuration row.
#[derive(Debug, Clone)]
pub struct ProviderConfigRow {
    pub id: String,
    pub engine_type: String,
    pub provider: String,
    pub model_id: Option<String>,
    pub endpoint: Option<String>,
    pub is_active: bool,
    pub config_json: Option<String>,
    pub created_at: Timestamp,
    pub updated_at: Timestamp,
}

impl ProviderConfigRow {
    /// A new, inactive configuration with a fresh id, created now.
    pub fn new(engine_type: &str, provider: &str) -> (r: Self)
        ensures
            uuid_v4_text(r.id@),
            r.engine_type@ == engine_type@,
            r.provider@ == provider@,
            r.model_id is None,
            r.endpoint is None,
            !r.is_active,
            r.config_json is None,
            r.created_at == r.updated_at,
    {
        let t = now();
        ProviderConfigRow {
            id: new_uuid_string(),
            engine_type: String::from_str(engine_type),
            provider: String::from_str(provider),
            model_id: None,
            endpoint: None,
            is_active: false,
            config_json: None,
            created_at: t,
            updated_at: t,
        }
    }
}

/// A summary row.
#[derive(Debug, Clone)]
pub struct SummaryRow {
    pub id: String,
    pub note_id: String,
    pub template_id: Option<String>,
    pub content: String,
    pub model_used: Option<String>,
    pub provider: Option<String>,
    pub version: i32,
    pub created_at: Timestamp,
}

impl SummaryRow {
    /// A new first-version summary with a fresh id, created now.
    pub fn new(note_id: &str, content: &str) -> (r: Self)
        ensures
            uuid_v4_text(r.id@),
            r.note_id@ == note_id@,
            r.template_id is None,
            r.content@ == content@,
            r.model_used is None,
            r.provider is None,
            r.version == 1,
    {
        SummaryRow {
            id: new_uuid_string(),
            note_id: String::from_str(note_id),
            template_id: None,
            content: String::from_str(content),
            model_used: None,
            provider: None,
            version: 1,
            created_at: now(),
        }
    }
}

/// The stored text of a note state.
pub open spec fn status_text(s: NoteStatus) -> Seq<char> {
    match s {
        NoteStatus::Recording => "recording"@,
        NoteStatus::Transcribing => "transcribing"@,
        NoteStatus::Summarizing => "summarizing"@,
        NoteStatus::Done => "done"@,
        NoteStatus::Error => "error"@,
    }
}

/// The note state a stored text stands for; unknown texts read as `Error`.
pub open spec fn status_of_text(s: Seq<char>) -> NoteStatus {
    if s == "recording"@ {
        NoteStatus::Recording
    } else if s == "transcribing"@ {
        NoteStatus::Transcribing
    } else if s == "summarizing"@ {
        NoteStatus::Summarizing
    } else if s == "done"@ {
        NoteStatus::Done
    } else {
        NoteStatus::Error
    }
}

/// The stored text of a note state.
pub fn status_to_str(status: &NoteStatus) -> (r: &'static str)
    ensures
        r@ == status_text(*status),
{
    match status {
        NoteStatus::Recording => "recording",
        NoteStatus::Transcribing => "transcribing",
        NoteStatus::Summarizing => "summarizing",
        NoteStatus::Done => "done",
        NoteStatus::Error => "error",
    }
}

/// The note state of a stored text.
pub fn str_to_status(s: &str) -> (r: NoteStatus)
    ensures
        r == status_of_text(s@),
{
    if str_eq(s, "recording") {
        NoteStatus::Recording
    } else if str_eq(s, "transcribing") {
        NoteStatus::Transcribing
    } else if str_eq(s, "summarizing") {
        NoteStatus::Summarizing
    } else if str_eq(s, "done") {
        NoteStatus::Done
    } else {
        NoteStatus::Error
    }
}

/// Reading back the stored text of a state gives the state again.
pub proof fn lemma_status_roundtrip(s: NoteStatus)
    ensures
        status_of_text(status_text(s)) == s,
{
    reveal_strlit("recording");
    reveal_strlit("transcribing");
    reveal_strlit("summarizing");
    reveal_strlit("done");
    reveal_strlit("error");
    match s {
        NoteStatus::Recording => {},
        NoteStatus::Transcribing => {
            assert("transcribing"@.len() != "recording"@.len());
        },
        NoteStatus::Summarizing => {
            assert("summarizing"@.len() != "recording"@.len());
            assert("summarizing"@.len() != "transcribing"@.len());
        },
        NoteStatus::Done => {
            assert("done"@.len() != "recording"@.len());
            assert("done"@.len() != "transcribing"@.len());
            assert("done"@.len() != "summarizing"@.len());
        },
        NoteStatus::Error => {
            assert("error"@.len() != "recording"@.len());
            assert("error"@.len() != "transcribing"@.len());
            assert("error"@.len() != "summarizing"@.len());
            assert("error"@.len() != "done"@.len());
        },
    }
}

} // verus!
