//! Prompt assembly: system prompt, previous summary, current transcript and
//! an optional output-format directive.

pub mod templates;

use vstd::prelude::*;
use vstd::string::StringExecFns;

verus! {

broadcast use vstd::string::group_string_axioms;

/// The system prompt used unless another is set.
pub const DEFAULT_SYSTEM_PROMPT: &'static str = "You are a meeting notes assistant. Your task is to create structured, concise summaries from meeting transcripts. Focus on:\n- Key decisions made\n- Action items with assignees\n- Important discussion points\n- Next steps\n\nBe factual and concise. Use bullet points.";

/// Assembles the summarisation prompt.
pub struct PromptBuilder {
    system_prompt: String,
    previous_summary: Option<String>,
    template_directives: Option<String>,
}

/// The characters of an optional string.
pub open spec fn opt_view(o: Option<String>) -> Option<Seq<char>> {
    match o {
        Some(s) => Some(s@),
        None => None,
    }
}

/// The abstract content of a builder: system prompt, previous summary and
/// output-format directive.
pub struct PromptParts {
    pub system: Seq<char>,
    pub previous: Option<Seq<char>>,
    pub template: Option<Seq<char>>,
}

impl View for PromptBuilder {
    type V = PromptParts;

    closed spec fn view(&self) -> PromptParts {
        PromptParts {
            system: self.system_prompt@,
            previous: opt_view(self.previous_summary),
            template: opt_view(self.template_directives),
        }
    }
}

/// The `## Output Format` part, when a directive is set.
pub open spec fn template_part(t: Option<Seq<char>>) -> Seq<char> {
    match t {
        Some(t) => "\n"@ + "\n## Output Format\n"@ + t,
        None => Seq::empty(),
    }
}

/// The `## Previous Summary` part, when a previous summary is set.
pub open spec fn previous_part(p: Option<Seq<char>>) -> Seq<char> {
    match p {
        Some(p) => "\n"@ + "\n## Previous Summary\n"@ + p,
        None => Seq::empty(),
    }
}

/// The prompt built from `parts` for a transcript: the parts joined by
/// line breaks, in the order system prompt, output format, previous
/// summary, transcript, closing request.
pub open spec fn build_spec(parts: PromptParts, transcript: Seq<char>) -> Seq<char> {
    parts.system + template_part(parts.template) + previous_part(parts.previous) + "\n"@
        + "\n## Current Transcript\n"@ + transcript + "\n"@
        + "\n## Summary\nPlease generate a structured summary:"@
}

impl PromptBuilder {
    /// A builder with the default system prompt and nothing else.
    pub fn new() -> (b: Self)
        ensures
            b@.system == DEFAULT_SYSTEM_PROMPT@,
            b@.previous is None,
            b@.template is None,
    {
        PromptBuilder {
            system_prompt: String::from_str(DEFAULT_SYSTEM_PROMPT),
            previous_summary: None,
            template_directives: None,
        }
    }

    /// Replaces the system prompt.
    pub fn with_system_prompt(self, prompt: &str) -> (b: Self)
        ensures
            b@ == (PromptParts { system: prompt@, ..self@ }),
    {
        PromptBuilder { system_prompt: String::from_str(prompt), ..self }
    }

    /// Sets the previous summary.
    pub fn with_previous_summary(self, summary: &str) -> (b: Self)
        ensures
            b@ == (PromptParts { previous: Some(summary@), ..self@ }),
    {
        PromptBuilder { previous_summary: Some(String::from_str(summary)), ..self }
    }

    /// Sets the output-format directive.
    pub fn with_template(self, template: &str) -> (b: Self)
        ensures
            b@ == (PromptParts { template: Some(template@), ..self@ }),
    {
        PromptBuilder { template_directives: Some(String::from_str(template)), ..self }
    }

    /// The final prompt for a transcript.
    pub fn build(&self, transcript: &str) -> (r: String)
        ensures
            r@ == build_spec(self@, transcript@),
    {
        let mut r = self.system_prompt.clone();
        match &self.template_directives {
            Some(t) => {
                r.append("\n");
                r.append("\n## Output Format\n");
                r.append(t.as_str());
            },
            None => {},
        }
        match &self.previous_summary {
            Some(p) => {
                r.append("\n");
                r.append("\n## Previous Summary\n");
                r.append(p.as_str());
            },
            None => {},
        }
        r.append("\n");
        r.append("\n## Current Transcript\n");
        r.append(transcript);
        r.append("\n");
        r.append("\n## Summary\nPlease generate a structured summary:");
        r
    }
}

} // verus!
