use fluent_translate::errors::Errors;
use fluent_translate::language::{
    available_languages, get_lang_name, locale_supported, LRLanguage,
};

fn lang(code: &str, name: &str, target: bool) -> LRLanguage {
    LRLanguage {
        language_code: code.to_string(),
        display_name: name.to_string(),
        support_source: true,
        support_target: target,
    }
}

#[test]
fn available_languages_keeps_only_targets() {
    let all = vec![
        lang("fr", "French", true),
        lang("xx", "Unusable", false),
        lang("de", "German", true),
    ];
    let targets = available_languages(all);
    let codes: Vec<&str> = targets.iter().map(|l| l.language_code.as_str()).collect();
    assert_eq!(codes, vec!["fr", "de"]);
}

#[test]
fn locale_supported_finds_target_codes_only() {
    let all = vec![lang("fr", "French", true), lang("xx", "Unusable", false)];
    assert!(locale_supported(&all, "fr"));
    assert!(!locale_supported(&all, "xx"));
    assert!(!locale_supported(&all, "it"));
}

#[test]
fn get_lang_name_picks_matching_display_name() {
    let all = vec![lang("fr", "français", true), lang("de", "Deutsch", true)];
    assert_eq!(get_lang_name(&all, "de"), "Deutsch");
}

#[test]
fn get_lang_name_falls_back_to_placeholder() {
    let all = vec![lang("fr", "français", true)];
    assert_eq!(get_lang_name(&all, "it"), "<INSERT LANGUAGE NAME HERE>");
}

#[test]
fn error_text_names_the_variant() {
    assert_eq!(Errors::MissingCredentialsFile.as_str(), "MissingCredentialsFile");
    assert_eq!(Errors::FailedQuery.as_str(), "FailedQuery");
    assert_eq!(Errors::MissingLanguage.as_str(), "MissingLanguage");
    assert_eq!(Errors::InvalidShell.as_str(), "InvalidShell");
    assert_eq!(Errors::InvalidLanguage.as_str(), "InvalidLanguage");
    assert_eq!(Errors::NoTranslations.as_str(), "NoTranslations");
}
