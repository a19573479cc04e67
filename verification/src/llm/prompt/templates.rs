//! Built-in output-format directives for summaries.

use vstd::prelude::*;

verus! {

pub const MEETING_NOTES: &'static str = "Format as meeting notes with these sections:\n## Attendees\n## Agenda\n## Discussion\n## Decisions\n## Action Items\n## Next Steps";

pub const BRAINSTORMING: &'static str = "Format as brainstorming session notes:\n## Topic\n## Ideas Generated\n## Top Ideas (ranked)\n## Next Actions";

pub const LECTURE_NOTES: &'static str = "Format as lecture notes:\n## Topic\n## Key Concepts\n## Important Details\n## Questions & Answers\n## Summary";

pub const ONE_ON_ONE: &'static str = "Format as 1:1 meeting notes:\n## Updates\n## Blockers\n## Goals for Next Period\n## Action Items";

} // verus!
