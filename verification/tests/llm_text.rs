use voxnote_core::llm::local::{format_chatml, strip_think_tags};
use voxnote_core::llm::prompt::{templates, PromptBuilder};
use voxnote_core::llm::templates::SummaryTemplate;

#[test]
fn test_strip_think_tags_basic() {
    let input = "<think>reasoning here</think>Final answer";
    assert_eq!(strip_think_tags(input), "Final answer");
}

#[test]
fn test_strip_think_tags_multiline() {
    let input = "<think>\nStep 1: ...\nStep 2: ...\n</think>\nThe result is 42.";
    assert_eq!(strip_think_tags(input), "The result is 42.");
}

#[test]
fn test_strip_think_tags_no_tags() {
    let input = "No reasoning here.";
    assert_eq!(strip_think_tags(input), "No reasoning here.");
}

#[test]
fn test_strip_think_tags_unclosed() {
    let input = "<think>unclosed reasoning";
    assert_eq!(strip_think_tags(input), "");
}

#[test]
fn test_strip_think_tags_multiple() {
    let input = "<think>first</think>Hello <think>second</think>World";
    assert_eq!(strip_think_tags(input), "Hello World");
}

#[test]
fn strip_think_tags_keeps_text_before_unclosed_tag() {
    assert_eq!(strip_think_tags("  Answer <think>draft"), "Answer");
}

#[test]
fn strip_think_tags_stray_closing_tag_is_text() {
    assert_eq!(strip_think_tags("a</think>b"), "a</think>b");
}

#[test]
fn strip_think_tags_nested_removes_outermost_pair() {
    assert_eq!(strip_think_tags("<think>a<think>b</think>c</think>d"), "d");
    assert_eq!(strip_think_tags("x <think>a<think>b</think>c</think> y"), "x  y");
    assert_eq!(strip_think_tags("keep<think>a<think>b</think>c"), "keep");
}

#[test]
fn strip_think_tags_is_idempotent_on_example() {
    let once = strip_think_tags("<think>x</think> Hello <think>y</think> World ");
    assert_eq!(strip_think_tags(&once), once);
}

#[test]
fn test_format_chatml() {
    let result = format_chatml("You are helpful.", "What is 2+2?");
    assert!(result.starts_with("<|im_start|>system\nYou are helpful.<|im_end|>"));
    assert!(result.contains("<|im_start|>user\nWhat is 2+2?<|im_end|>"));
    assert!(result.ends_with("<|im_start|>assistant\n"));
}

#[test]
fn format_chatml_exact() {
    assert_eq!(
        format_chatml("S", "U"),
        "<|im_start|>system\nS<|im_end|>\n<|im_start|>user\nU<|im_end|>\n<|im_start|>assistant\n"
    );
}

#[test]
fn test_prompt_builder() {
    let prompt = PromptBuilder::new()
        .with_previous_summary("Previous meeting discussed X.")
        .with_template(templates::MEETING_NOTES)
        .build("Speaker A: Let's finalize the design.\nSpeaker B: Agreed.");

    assert!(prompt.contains("meeting notes assistant"));
    assert!(prompt.contains("Previous Summary"));
    assert!(prompt.contains("finalize the design"));
    assert!(prompt.contains("## Attendees"));
}

#[test]
fn prompt_builder_exact_layout() {
    let prompt = PromptBuilder::new()
        .with_system_prompt("SYS")
        .with_template("T")
        .with_previous_summary("P")
        .build("X");
    assert_eq!(
        prompt,
        "SYS\n\n## Output Format\nT\n\n## Previous Summary\nP\n\n## Current Transcript\nX\n\n## Summary\nPlease generate a structured summary:"
    );
}

#[test]
fn prompt_builder_without_optional_parts() {
    let prompt = PromptBuilder::new().with_system_prompt("S").build("X");
    assert_eq!(
        prompt,
        "S\n\n## Current Transcript\nX\n\n## Summary\nPlease generate a structured summary:"
    );
}

#[test]
fn builtin_templates() {
    let b = SummaryTemplate::builtins();
    assert_eq!(b.len(), 4);
    assert_eq!(b[0].id, "meeting-notes");
    assert_eq!(b[1].id, "brainstorming");
    assert_eq!(b[2].name, "Lecture Notes");
    assert_eq!(b[3].prompt, templates::ONE_ON_ONE);
    assert!(b.iter().all(|t| t.is_builtin));
}

#[test]
fn custom_template() {
    let t = SummaryTemplate::new_custom("N", "D", "P");
    assert_eq!(t.id.len(), 36);
    assert_eq!(t.name, "N");
    assert!(!t.is_builtin);
}
