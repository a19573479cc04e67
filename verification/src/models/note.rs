//! Notes.

use vstd::prelude::*;
use vstd::string::StringExecFns;
use crate::ids::{new_uuid_string, uuid_v4_text};

verus! {

broadcast use vstd::string::group_string_axioms;

/// The processing state of a note.
#[derive(Debug, Clone, Copy, PartialEq, Eq, Structural)]
pub enum NoteStatus {
    Recording,
    Transcribing,
    Summarizing,
    Done,
    Error,
}

/// A point in time: seconds and nanoseconds since the Unix epoch, UTC.
#[derive(Debug, Clone, Copy, PartialEq, Eq, Structural)]
pub struct Timestamp {
    pub secs: i64,
    pub nanos: u32,
}

/// Whether `secs` lies within the instants chrono represents: from the
/// timestamp of `DateTime::<Utc>::MIN_UTC` to that of `MAX_UTC`, both
/// included (`DateTime::from_timestamp` gives `None` outside them).
pub open spec fn in_chrono_range(secs: i64) -> bool {
    -8_334_601_228_800 <= secs <= 8_210_266_876_799
}

/// The current time, from `chrono::Utc::now()`.  It depends on the clock,
/// so nothing is stated of it but what holds of every chrono instant: the
/// seconds lie within chrono's range and the nanoseconds below two seconds
/// (leap seconds).
#[verifier::external_body]
pub(crate) fn now() -> (t: Timestamp)
    ensures
        in_chrono_range(t.secs),
        t.nanos < 2_000_000_000,
{
    let n = chrono::Utc::now();
    Timestamp { secs: n.timestamp(), nanos: n.timestamp_subsec_nanos() }
}

/// A note: one recording with its transcript and summaries.
#[derive(Debug, Clone)]
pub struct Note {
    pub id: String,
    pub title: String,
    pub status: NoteStatus,
    pub folder_id: Option<String>,
    pub duration_ms: Option<i64>,
    pub language: Option<String>,
    pub created_at: Timestamp,
    pub updated_at: Timestamp,
}

impl Note {
    /// A new note in the recording state, created and updated now.
    pub fn new(title: &str) -> (n: Self)
        ensures
            uuid_v4_text(n.id@),
            n.title@ == title@,
            n.status == NoteStatus::Recording,
            n.folder_id is None,
            n.duration_ms is None,
            n.language is None,
            n.created_at == n.updated_at,
    {
        let t = now();
        Note {
            id: new_uuid_string(),
            title: String::from_str(title),
            status: NoteStatus::Recording,
            folder_id: None,
            duration_ms: None,
            language: None,
            created_at: t,
            updated_at: t,
        }
    }
}

/// The text that chrono's `DateTime::<Utc>::format(fmt)` writes for the
/// instant `secs` seconds after the Unix epoch.
pub uninterp spec fn utc_text(secs: i64, fmt: Seq<char>) -> Seq<char>;

/// A format made of literal characters and the specifiers `%Y`, `%m`,
/// `%d`, `%H`, `%M`, `%S` and `%%`: with such a format chrono writes every
/// instant of its range (a format it cannot read makes `to_string` panic).
pub open spec fn plain_strftime(f: Seq<char>) -> bool
    decreases f.len(),
{
    if f.len() == 0 {
        true
    } else if f[0] == '%' {
        &&& f.len() >= 2
        &&& (f[1] == 'Y' || f[1] == 'm' || f[1] == 'd' || f[1] == 'H' || f[1] == 'M' || f[1] == 'S' || f[1]
            == '%')
        &&& plain_strftime(f.skip(2))
    } else {
        plain_strftime(f.drop_first())
    }
}

/// `chrono::DateTime::<Utc>::from_timestamp(secs, 0)` formatted with
/// `fmt`.  The text is named over the instant and the format; within
/// chrono's range the instant exists, and a plain format never fails.
#[verifier::external_body]
pub(crate) fn format_utc(secs: i64, fmt: &str) -> (r: String)
    requires
        in_chrono_range(secs),
        plain_strftime(fmt@),
    ensures
        r@ == utc_text(secs, fmt@),
{
    chrono::DateTime::from_timestamp(secs, 0).unwrap().format(fmt).to_string()
}

} // verus!
