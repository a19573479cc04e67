//! Notes, folders, transcript segments and recordings.

pub mod folder;
pub mod note;
pub mod recording;
pub mod segment;

pub use folder::Folder;
pub use note::{Note, NoteStatus, Timestamp};
pub use recording::{Recording, RecordingState};
pub use segment::Segment;
