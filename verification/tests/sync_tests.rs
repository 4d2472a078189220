//! End-to-end scenarios: plan, resolve against service outcomes, and
//! reconstruct the output text.

use fluent_translate::language::LRLanguage;
use fluent_translate::model::{Comment, Element, Entry, Expression, Message, Pattern, Resource,
    Term};
use fluent_translate::orchestrate::{
    apply_outcomes, plan_translations, ServiceOutcome, TranslationUnit, UnitKind,
};
use fluent_translate::writer::compose_output;

fn var(name: &str) -> Element {
    Element::Placeable(Expression::VariableReference(name.to_string()))
}

fn text(s: &str) -> Element {
    Element::Text(s.to_string())
}

fn message(id: &str, elements: Vec<Element>, comment: Option<Comment>) -> Message {
    Message {
        id: id.to_string(),
        value: Some(Pattern { elements }),
        comment,
    }
}

fn plain_comment(lines: &[&str]) -> Comment {
    Comment::Comment {
        content: lines.iter().map(|s| s.to_string()).collect(),
    }
}

fn greeting_elements() -> Vec<Element> {
    vec![text("Hello, "), var("name"), text("!")]
}

fn run(
    source: &Resource,
    prior: Option<&Resource>,
    target: Option<&Resource>,
    language: &str,
    outcomes: Vec<ServiceOutcome>,
) -> String {
    let units = plan_translations(source, prior, target);
    assert_eq!(units.len(), outcomes.len());
    let results = apply_outcomes(&units, language, &outcomes);
    compose_output(source, target, &results)
}

#[test]
fn hand_translated_entry_is_kept_verbatim() {
    // Source and prior agree; the target carries a hand-translated entry.
    let source = Resource {
        entries: vec![Entry::Message(message("greeting", greeting_elements(), None))],
    };
    let prior = Resource {
        entries: vec![Entry::Message(message("greeting", greeting_elements(), None))],
    };
    let target = Resource {
        entries: vec![Entry::Message(message(
            "greeting",
            vec![text("Bonjour, "), var("name"), text("!")],
            Some(plain_comment(&["tt-hand-translated"])),
        ))],
    };
    let out = run(&source, Some(&prior), Some(&target), "fr", vec![]);
    assert_eq!(
        out,
        "# tt-hand-translated\ngreeting = Bonjour, { $name }!\n\n"
    );
}

#[test]
fn changed_source_is_translated_and_placeholders_reinserted() {
    // The source text changed against the snapshot; the target entry has no
    // comment, so the unit is sent out and the service answer is written
    // back with the placeholder restored.
    let source = Resource {
        entries: vec![Entry::Message(message("greeting", greeting_elements(), None))],
    };
    let prior = Resource {
        entries: vec![Entry::Message(message(
            "greeting",
            vec![text("Hi, "), var("name"), text("!")],
            None,
        ))],
    };
    let target = Resource {
        entries: vec![Entry::Message(message(
            "greeting",
            vec![text("Salut, "), var("name"), text("!")],
            None,
        ))],
    };
    let units = plan_translations(&source, Some(&prior), Some(&target));
    assert_eq!(units.len(), 1);
    match &units[0].kind {
        UnitKind::Text {
            stripped,
            placeholders,
        } => {
            assert_eq!(stripped, "Hello, ___!");
            assert_eq!(placeholders, &vec!["{ $name }".to_string()]);
        }
        _ => panic!("expected a text unit"),
    }
    let outcomes = vec![ServiceOutcome::TextReturned("Bonjour, ___!".to_string())];
    let results = apply_outcomes(&units, "fr", &outcomes);
    let out = compose_output(&source, Some(&target), &results);
    assert_eq!(out, "greeting = Bonjour, { $name }!\n\n");
}

#[test]
fn failed_call_degrades_to_passthrough() {
    let source = Resource {
        entries: vec![Entry::Message(message("greeting", greeting_elements(), None))],
    };
    let out = run(
        &source,
        None,
        None,
        "fr",
        vec![ServiceOutcome::CallFailed],
    );
    assert_eq!(out, "greeting = Hello, { $name }!\n\n");
}

#[test]
fn source_language_target_bypasses_the_service() {
    let source = Resource {
        entries: vec![Entry::Message(message("greeting", greeting_elements(), None))],
    };
    // Even a failed call does not matter: "en" short-circuits.
    let out = run(&source, None, None, "en", vec![ServiceOutcome::CallFailed]);
    assert_eq!(out, "greeting = Hello, { $name }!\n\n");
}

#[test]
fn terms_and_comments_pass_through_in_order() {
    let source = Resource {
        entries: vec![
            Entry::Comment(Comment::ResourceComment {
                content: vec!["top of file".to_string()],
            }),
            Entry::Term(Term {
                id: "brand".to_string(),
                value: Pattern {
                    elements: vec![text("FuelGauge")],
                },
                comment: Some(plain_comment(&["the product"])),
            }),
            Entry::Message(message("greeting", greeting_elements(), None)),
        ],
    };
    let out = run(
        &source,
        None,
        None,
        "fr",
        vec![ServiceOutcome::TextReturned("Bonjour, ___!".to_string())],
    );
    assert_eq!(
        out,
        "### top of file\n\n# the product\n-brand = FuelGauge\n\ngreeting = Bonjour, { $name }!\n\n"
    );
}

#[test]
fn message_without_value_writes_empty_value() {
    let source = Resource {
        entries: vec![Entry::Message(Message {
            id: "empty".to_string(),
            value: None,
            comment: None,
        })],
    };
    let units = plan_translations(&source, None, None);
    assert_eq!(units.len(), 1);
    assert!(matches!(units[0].kind, UnitKind::Empty));
    let results = apply_outcomes(&units, "fr", &vec![ServiceOutcome::CallFailed]);
    let out = compose_output(&source, None, &results);
    assert_eq!(out, "empty = \n\n");
}

#[test]
fn lang_name_unit_uses_display_name() {
    let source = Resource {
        entries: vec![Entry::Message(message(
            "language-name",
            vec![text("English")],
            Some(plain_comment(&["tt-lang-name"])),
        ))],
    };
    let units = plan_translations(&source, None, None);
    assert_eq!(units.len(), 1);
    assert!(matches!(units[0].kind, UnitKind::LangName));
    let languages = vec![LRLanguage {
        language_code: "fr".to_string(),
        display_name: "français".to_string(),
        support_source: true,
        support_target: true,
    }];
    let results = apply_outcomes(
        &units,
        "fr",
        &vec![ServiceOutcome::LanguagesFetched(languages)],
    );
    let out = compose_output(&source, None, &results);
    assert_eq!(out, "language-name = français\n\n");
}

#[test]
fn lang_name_failure_falls_back_to_placeholder() {
    let source = Resource {
        entries: vec![Entry::Message(message(
            "language-name",
            vec![text("English")],
            Some(plain_comment(&["tt-lang-name"])),
        ))],
    };
    let out = run(&source, None, None, "fr", vec![ServiceOutcome::CallFailed]);
    assert_eq!(out, "language-name = <INSERT LANGUAGE NAME HERE>\n\n");
}

#[test]
fn skipped_message_missing_from_target_falls_back_to_source() {
    // First-ever run shape: the verdict machinery skips nothing here, but a
    // message skipped by hand-translation whose target entry then vanishes
    // cannot happen in one run; instead check the fallback when no
    // translation was computed and the target lacks the id.
    let source = Resource {
        entries: vec![Entry::Message(message(
            "greeting",
            greeting_elements(),
            Some(plain_comment(&["source note"])),
        ))],
    };
    let results = Vec::new();
    let out = compose_output(&source, None, &results);
    assert_eq!(out, "# source note\ngreeting = Hello, { $name }!\n\n");
}

#[test]
fn identical_inputs_give_identical_output() {
    let source = Resource {
        entries: vec![
            Entry::Message(message("greeting", greeting_elements(), None)),
            Entry::Message(message("farewell", vec![text("Bye!")], None)),
        ],
    };
    let outcomes = || {
        vec![
            ServiceOutcome::TextReturned("Bonjour, ___!".to_string()),
            ServiceOutcome::TextReturned("Au revoir!".to_string()),
        ]
    };
    let out1 = run(&source, None, None, "fr", outcomes());
    let out2 = run(&source, None, None, "fr", outcomes());
    assert_eq!(out1, out2);
}

#[test]
fn output_preserves_source_entry_order() {
    let source = Resource {
        entries: vec![
            Entry::Message(message("b", vec![text("Two")], None)),
            Entry::Message(message("a", vec![text("One")], None)),
            Entry::Message(message("c", vec![text("Three")], None)),
        ],
    };
    let out = run(
        &source,
        None,
        None,
        "fr",
        vec![
            ServiceOutcome::TextReturned("Deux".to_string()),
            ServiceOutcome::TextReturned("Un".to_string()),
            ServiceOutcome::TextReturned("Trois".to_string()),
        ],
    );
    assert_eq!(out, "b = Deux\n\na = Un\n\nc = Trois\n\n");
}

#[test]
fn unit_ids_follow_source_order() {
    let source = Resource {
        entries: vec![
            Entry::Message(message("b", vec![text("Two")], None)),
            Entry::Message(message("a", vec![text("One")], None)),
        ],
    };
    let units: Vec<TranslationUnit> = plan_translations(&source, None, None);
    let ids: Vec<&str> = units.iter().map(|u| u.id.as_str()).collect();
    assert_eq!(ids, vec!["b", "a"]);
}
