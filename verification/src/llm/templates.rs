//! Summary templates: the built-in ones and user-defined ones.

use vstd::prelude::*;
use vstd::string::StringExecFns;
use crate::ids::{new_uuid_string, uuid_v4_text};
use crate::llm::prompt::templates::{BRAINSTORMING, LECTURE_NOTES, MEETING_NOTES, ONE_ON_ONE};

verus! {

broadcast use vstd::string::group_string_axioms;

/// A summary template.
pub struct SummaryTemplate {
    pub id: String,
    pub name: String,
    pub description: String,
    pub prompt: String,
    pub is_builtin: bool,
}

/// A template holds the given texts.
pub open spec fn template_is(
    t: SummaryTemplate,
    id: Seq<char>,
    name: Seq<char>,
    description: Seq<char>,
    prompt: Seq<char>,
    is_builtin: bool,
) -> bool {
    &&& t.id@ == id
    &&& t.name@ == name
    &&& t.description@ == description
    &&& t.prompt@ == prompt
    &&& t.is_builtin == is_builtin
}

fn template(id: &str, name: &str, description: &str, prompt: &str) -> (t: SummaryTemplate)
    ensures
        template_is(t, id@, name@, description@, prompt@, true),
{
    SummaryTemplate {
        id: String::from_str(id),
        name: String::from_str(name),
        description: String::from_str(description),
        prompt: String::from_str(prompt),
        is_builtin: true,
    }
}

impl SummaryTemplate {
    /// A user-defined template with a fresh random id.
    pub fn new_custom(name: &str, description: &str, prompt: &str) -> (t: Self)
        ensures
            uuid_v4_text(t.id@),
            t.name@ == name@,
            t.description@ == description@,
            t.prompt@ == prompt@,
            !t.is_builtin,
    {
        SummaryTemplate {
            id: new_uuid_string(),
            name: String::from_str(name),
            description: String::from_str(description),
            prompt: String::from_str(prompt),
            is_builtin: false,
        }
    }

    /// The built-in templates, in this order: meeting notes,
    /// brainstorming, lecture notes, one-on-one.
    pub fn builtins() -> (v: Vec<Self>)
        ensures
            v.len() == 4,
            template_is(v[0], "meeting-notes"@, "Meeting Notes"@,
                "Standard meeting notes with attendees, decisions, and action items"@, MEETING_NOTES@, true),
            template_is(v[1], "brainstorming"@, "Brainstorming"@,
                "Brainstorming session with ideas and rankings"@, BRAINSTORMING@, true),
            template_is(v[2], "lecture-notes"@, "Lecture Notes"@,
                "Lecture notes with key concepts and Q&A"@, LECTURE_NOTES@, true),
            template_is(v[3], "one-on-one"@, "1:1 Meeting"@,
                "One-on-one meeting with updates and blockers"@, ONE_ON_ONE@, true),
    {
        let mut v: Vec<SummaryTemplate> = Vec::new();
        v.push(template("meeting-notes", "Meeting Notes",
            "Standard meeting notes with attendees, decisions, and action items", MEETING_NOTES));
        v.push(template("brainstorming", "Brainstorming",
            "Brainstorming session with ideas and rankings", BRAINSTORMING));
        v.push(template("lecture-notes", "Lecture Notes",
            "Lecture notes with key concepts and Q&A", LECTURE_NOTES));
        v.push(template("one-on-one", "1:1 Meeting",
            "One-on-one meeting with updates and blockers", ONE_ON_ONE));
        v
    }
}

} // verus!
