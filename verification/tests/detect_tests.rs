use fluent_translate::detect::{decide, Verdict};
use fluent_translate::model::{Comment, Element, Entry, Message, Pattern, Resource};

fn pattern(s: &str) -> Pattern {
    Pattern {
        elements: vec![Element::Text(s.to_string())],
    }
}

fn message(id: &str, value: &str, comment: Option<Comment>) -> Message {
    Message {
        id: id.to_string(),
        value: Some(pattern(value)),
        comment,
    }
}

fn resource_of(messages: Vec<Message>) -> Resource {
    Resource {
        entries: messages.into_iter().map(Entry::Message).collect(),
    }
}

fn plain_comment(lines: &[&str]) -> Comment {
    Comment::Comment {
        content: lines.iter().map(|s| s.to_string()).collect(),
    }
}

#[test]
fn absent_from_prior_needs_translation() {
    let m = message("greeting", "Hello", None);
    let prior = resource_of(vec![]);
    let v = decide(&m, Some(&prior), None);
    assert_eq!(v, Verdict::NeedsTranslation);
}

#[test]
fn no_prior_resource_needs_translation() {
    let m = message("greeting", "Hello", None);
    let v = decide(&m, None, None);
    assert_eq!(v, Verdict::NeedsTranslation);
}

#[test]
fn changed_text_needs_translation() {
    let m = message("greeting", "Hello there", None);
    let prior = resource_of(vec![message("greeting", "Hello", None)]);
    let target = resource_of(vec![message("greeting", "Bonjour", None)]);
    // Target entry has no comment: the diff decides.
    let v = decide(&m, Some(&prior), Some(&target));
    assert_eq!(v, Verdict::NeedsTranslation);
}

#[test]
fn unchanged_text_without_target_comment_skips() {
    let m = message("greeting", "Hello", None);
    let prior = resource_of(vec![message("greeting", "Hello", None)]);
    let target = resource_of(vec![message("greeting", "Bonjour", None)]);
    let v = decide(&m, Some(&prior), Some(&target));
    assert_eq!(v, Verdict::Skip);
}

#[test]
fn absent_from_target_overrides_unchanged_diff() {
    // New-term forcing: the id is missing from the existing target, so the
    // verdict is NeedsTranslation even though the prior snapshot matches.
    let m = message("greeting", "Hello", None);
    let prior = resource_of(vec![message("greeting", "Hello", None)]);
    let target = resource_of(vec![message("other", "Autre", None)]);
    let v = decide(&m, Some(&prior), Some(&target));
    assert_eq!(v, Verdict::NeedsTranslation);
}

#[test]
fn no_target_resource_overrides_unchanged_diff() {
    let m = message("greeting", "Hello", None);
    let prior = resource_of(vec![message("greeting", "Hello", None)]);
    let v = decide(&m, Some(&prior), None);
    assert_eq!(v, Verdict::NeedsTranslation);
}

#[test]
fn hand_translated_tag_overrides_changed_diff() {
    let m = message("greeting", "Hello there", None);
    let prior = resource_of(vec![message("greeting", "Hello", None)]);
    let target = resource_of(vec![message(
        "greeting",
        "Bonjour",
        Some(plain_comment(&["tt-hand-translated"])),
    )]);
    let v = decide(&m, Some(&prior), Some(&target));
    assert_eq!(v, Verdict::Skip);
}

#[test]
fn tag_recognized_by_substring() {
    let m = message("greeting", "Hello there", None);
    let target = resource_of(vec![message(
        "greeting",
        "Bonjour",
        Some(plain_comment(&["note", "this one is tt-hand-translated, keep"])),
    )]);
    let v = decide(&m, None, Some(&target));
    assert_eq!(v, Verdict::Skip);
}

#[test]
fn untagged_comment_forces_retranslation() {
    // Untagged presence never blocks retranslation: even with an unchanged
    // diff, an untagged standalone comment on the target entry retranslates.
    let m = message("greeting", "Hello", None);
    let prior = resource_of(vec![message("greeting", "Hello", None)]);
    let target = resource_of(vec![message(
        "greeting",
        "Bonjour",
        Some(plain_comment(&["reviewed once"])),
    )]);
    let v = decide(&m, Some(&prior), Some(&target));
    assert_eq!(v, Verdict::NeedsTranslation);
}

#[test]
fn group_comment_falls_through_to_diff() {
    let m = message("greeting", "Hello", None);
    let prior = resource_of(vec![message("greeting", "Hello", None)]);
    let target = resource_of(vec![message(
        "greeting",
        "Bonjour",
        Some(Comment::GroupComment {
            content: vec!["tt-hand-translated".to_string()],
        }),
    )]);
    // A non-standalone comment never carries tags: the diff (unchanged)
    // decides.
    let v = decide(&m, Some(&prior), Some(&target));
    assert_eq!(v, Verdict::Skip);
}
