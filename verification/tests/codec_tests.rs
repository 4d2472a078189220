use fluent_translate::codec::{expression_text, pattern_text, reinsert, strip};
use fluent_translate::model::{Element, Expression, Pattern};

fn text(s: &str) -> Element {
    Element::Text(s.to_string())
}

fn var(name: &str) -> Element {
    Element::Placeable(Expression::VariableReference(name.to_string()))
}

#[test]
fn expression_renderings() {
    assert_eq!(
        expression_text(&Expression::StringLiteral("abc".to_string())),
        "{ abc }"
    );
    assert_eq!(
        expression_text(&Expression::NumberLiteral("42".to_string())),
        "{ 42 }"
    );
    assert_eq!(
        expression_text(&Expression::MessageReference("other".to_string())),
        "{ other }"
    );
    assert_eq!(
        expression_text(&Expression::TermReference("brand".to_string())),
        "{ -brand }"
    );
    assert_eq!(
        expression_text(&Expression::VariableReference("name".to_string())),
        "{ $name }"
    );
    assert_eq!(expression_text(&Expression::FunctionReference), "___");
    assert_eq!(expression_text(&Expression::SelectExpression), "___");
}

#[test]
fn strip_replaces_placeables_with_sentinels() {
    let p = Pattern {
        elements: vec![text("Hello, "), var("name"), text("!")],
    };
    let (stripped, placeholders) = strip(&p);
    assert_eq!(stripped, "Hello, ___!");
    assert_eq!(placeholders, vec!["{ $name }".to_string()]);
}

#[test]
fn strip_keeps_encounter_order() {
    let p = Pattern {
        elements: vec![
            var("a"),
            text(" and "),
            Element::Placeable(Expression::TermReference("b".to_string())),
            Element::Placeable(Expression::FunctionReference),
        ],
    };
    let (stripped, placeholders) = strip(&p);
    assert_eq!(stripped, "___ and ______");
    assert_eq!(
        placeholders,
        vec![
            "{ $a }".to_string(),
            "{ -b }".to_string(),
            "___".to_string()
        ]
    );
}

#[test]
fn pattern_text_restores_surface_form() {
    let p = Pattern {
        elements: vec![text("Hello, "), var("name"), text("!")],
    };
    assert_eq!(pattern_text(&p), "Hello, { $name }!");
}

#[test]
fn reinsert_round_trips_stripped_pattern() {
    let p = Pattern {
        elements: vec![text("Hi "), var("a"), text(" bye "), var("b")],
    };
    let (stripped, placeholders) = strip(&p);
    let restored = reinsert(&stripped, &placeholders);
    assert_eq!(restored, pattern_text(&p));
    assert_eq!(restored, "Hi { $a } bye { $b }");
}

#[test]
fn reinsert_replaces_left_to_right() {
    let ps = vec!["{ $x }".to_string(), "{ $y }".to_string()];
    assert_eq!(reinsert("___ then ___", &ps), "{ $x } then { $y }");
}

#[test]
fn reinsert_drops_excess_placeholders() {
    // The translation merged the two sentinels into one: the second
    // placeholder is silently not reinserted.
    let ps = vec!["{ $x }".to_string(), "{ $y }".to_string()];
    assert_eq!(reinsert("only ___ here", &ps), "only { $x } here");
}

#[test]
fn reinsert_leaves_surplus_sentinels() {
    let ps = vec!["{ $x }".to_string()];
    assert_eq!(reinsert("___ and ___", &ps), "{ $x } and ___");
}

#[test]
fn reinsert_with_no_placeholders_is_identity() {
    let ps: Vec<String> = Vec::new();
    assert_eq!(reinsert("plain ___ text", &ps), "plain ___ text");
}
