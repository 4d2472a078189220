use fluent_translate::orchestrate::{
    postprocess_translation, resolve_unit, select_translation, GlossaryConfig, ServiceOutcome,
    TranslationUnit, UnitKind,
};

#[test]
fn glossary_config_carries_its_fields() {
    let g = GlossaryConfig {
        glossary: "projects/p/locations/us-central1/glossaries/g".to_string(),
        ignore_case: Some(true),
    };
    assert_eq!(g.glossary, "projects/p/locations/us-central1/glossaries/g");
    assert_eq!(g.ignore_case, Some(true));
}

#[test]
fn postprocess_decodes_html_entities() {
    assert_eq!(
        postprocess_translation("Fish &amp; chips"),
        Some("Fish & chips".to_string())
    );
}

#[test]
fn postprocess_rejects_malformed_entities() {
    assert_eq!(postprocess_translation("broken &thisentitydoesnotexist; end"), None);
}

#[test]
fn postprocess_indents_continuation_lines() {
    assert_eq!(
        postprocess_translation("line one\nline two\nline three"),
        Some("line one\n    line two\n    line three".to_string())
    );
}

#[test]
fn postprocess_replaces_nbsp_artefact() {
    assert_eq!(
        postprocess_translation("a\u{c2} b"),
        Some("a b".to_string())
    );
}

#[test]
fn select_translation_prefers_glossary() {
    let r = select_translation(
        vec!["plain".to_string()],
        Some(vec!["from glossary".to_string()]),
    );
    assert_eq!(r, Some("from glossary".to_string()));
}

#[test]
fn select_translation_takes_last_plain_translation() {
    let r = select_translation(vec!["first".to_string(), "last".to_string()], None);
    assert_eq!(r, Some("last".to_string()));
}

#[test]
fn select_translation_empty_response_is_none() {
    let r = select_translation(Vec::new(), None);
    assert_eq!(r, None);
}

#[test]
fn select_translation_empty_glossary_list_is_none() {
    let r = select_translation(vec!["plain".to_string()], Some(Vec::new()));
    assert_eq!(r, None);
}

#[test]
fn resolve_text_unit_postprocesses_service_reply() {
    let unit = TranslationUnit {
        id: "greeting".to_string(),
        kind: UnitKind::Text {
            stripped: "Hello ___!".to_string(),
            placeholders: vec!["{ $name }".to_string()],
        },
    };
    let outcome = ServiceOutcome::TextReturned("Bonjour&nbsp;___!".to_string());
    let r = resolve_unit(&unit, "fr", &outcome);
    assert_eq!(r.id, "greeting");
    assert_eq!(r.text, Some("Bonjour\u{a0}___!".to_string()));
}

#[test]
fn resolve_text_unit_falls_back_on_failure() {
    let unit = TranslationUnit {
        id: "greeting".to_string(),
        kind: UnitKind::Text {
            stripped: "Hello ___!".to_string(),
            placeholders: vec!["{ $name }".to_string()],
        },
    };
    let r = resolve_unit(&unit, "fr", &ServiceOutcome::CallFailed);
    assert_eq!(r.text, Some("Hello ___!".to_string()));
}

#[test]
fn resolve_text_unit_keeps_source_language_verbatim() {
    let unit = TranslationUnit {
        id: "greeting".to_string(),
        kind: UnitKind::Text {
            stripped: "Hello &amp; bye".to_string(),
            placeholders: Vec::new(),
        },
    };
    // No postprocessing on the source-language shortcut.
    let r = resolve_unit(
        &unit,
        "en",
        &ServiceOutcome::TextReturned("ignored".to_string()),
    );
    assert_eq!(r.text, Some("Hello &amp; bye".to_string()));
}

#[test]
fn resolve_empty_unit_has_no_text() {
    let unit = TranslationUnit {
        id: "empty".to_string(),
        kind: UnitKind::Empty,
    };
    let r = resolve_unit(
        &unit,
        "fr",
        &ServiceOutcome::TextReturned("ignored".to_string()),
    );
    assert_eq!(r.text, None);
}
