//! Per-message translation workflow: planning which messages to send, the
//! service-specific cleanup of returned text, and the fallback-on-failure
//! policy that degrades every per-unit failure to pass-through.

use crate::codec::{placeholders, strip, stripped_text};
use crate::detect::{
    comment_has_tag, decide, lang_name_tag, opt_comment_has_tag, opt_resource_view, spec_decide,
    Verdict,
};
use crate::language::{
    get_lang_name, lang_name_placeholder, languages_view, spec_lang_name, LRLanguage, LRLanguageV,
};
use crate::model::{Entry, EntryV, Message, MessageV, Resource, ResourceV};
use crate::text::{replace_all, replace_all_exec, str_eq};
use vstd::prelude::*;
use vstd::string::*;

verus! {

/// Optional terminology-constraint parameter passed through to the
/// translation call; opaque to the core logic.
pub struct GlossaryConfig {
    pub glossary: String,
    pub ignore_case: Option<bool>,
}

/// What one pending message needs from the translation service.
pub enum UnitKind {
    /// The message's value is the target language's localized display name.
    LangName,
    /// The message has no value pattern; nothing exists to translate.
    Empty,
    /// Ordinary prose: stripped text to send, placeholder renderings to
    /// reinsert afterwards.
    Text { stripped: String, placeholders: Vec<String> },
}

/// One message due for translation this run.
pub struct TranslationUnit {
    pub id: String,
    pub kind: UnitKind,
}

/// Mathematical view of a unit's kind.
#[verifier::ext_equal]
pub enum UnitKindV {
    LangName,
    Empty,
    Text { stripped: Seq<char>, placeholders: Seq<Seq<char>> },
}

/// Mathematical view of a pending unit.
#[verifier::ext_equal]
pub struct TranslationUnitV {
    pub id: Seq<char>,
    pub kind: UnitKindV,
}

impl View for UnitKind {
    type V = UnitKindV;

    open spec fn view(&self) -> UnitKindV {
        match self {
            UnitKind::LangName => UnitKindV::LangName,
            UnitKind::Empty => UnitKindV::Empty,
            UnitKind::Text { stripped, placeholders } => UnitKindV::Text {
                stripped: stripped@,
                placeholders: placeholders.deep_view(),
            },
        }
    }
}

impl View for TranslationUnit {
    type V = TranslationUnitV;

    open spec fn view(&self) -> TranslationUnitV {
        TranslationUnitV { id: self.id@, kind: self.kind@ }
    }
}

/// The view of a unit list.
pub open spec fn units_view(us: Seq<TranslationUnit>) -> Seq<TranslationUnitV> {
    us.map_values(|u: TranslationUnit| u@)
}

/// The translation computed for one message id: `None` when the message had
/// no value to translate.
pub struct TranslationResult {
    pub id: String,
    pub text: Option<String>,
}

/// Mathematical view of a translation result.
#[verifier::ext_equal]
pub struct TranslationResultV {
    pub id: Seq<char>,
    pub text: Option<Seq<char>>,
}

impl View for TranslationResult {
    type V = TranslationResultV;

    open spec fn view(&self) -> TranslationResultV {
        TranslationResultV { id: self.id@, text: self.text.deep_view() }
    }
}

/// The view of a result list.
pub open spec fn results_view(rs: Seq<TranslationResult>) -> Seq<TranslationResultV> {
    rs.map_values(|r: TranslationResult| r@)
}

/// What came back from the external collaborator for one unit.
pub enum ServiceOutcome {
    /// The supported-language list was fetched (for a language-name unit).
    LanguagesFetched(Vec<LRLanguage>),
    /// The translation call returned this raw text.
    TextReturned(String),
    /// The call failed; the unit degrades to pass-through.
    CallFailed,
}

/// Mathematical view of a service outcome.
#[verifier::ext_equal]
pub enum ServiceOutcomeV {
    LanguagesFetched(Seq<LRLanguageV>),
    TextReturned(Seq<char>),
    CallFailed,
}

impl View for ServiceOutcome {
    type V = ServiceOutcomeV;

    open spec fn view(&self) -> ServiceOutcomeV {
        match self {
            ServiceOutcome::LanguagesFetched(ls) => ServiceOutcomeV::LanguagesFetched(
                languages_view(ls@),
            ),
            ServiceOutcome::TextReturned(s) => ServiceOutcomeV::TextReturned(s@),
            ServiceOutcome::CallFailed => ServiceOutcomeV::CallFailed,
        }
    }
}

/// The view of an outcome list.
pub open spec fn outcomes_view(os: Seq<ServiceOutcome>) -> Seq<ServiceOutcomeV> {
    os.map_values(|o: ServiceOutcome| o@)
}

/// The unit built for a message that needs translation.
pub open spec fn spec_unit_for(m: MessageV) -> TranslationUnitV {
    TranslationUnitV {
        id: m.id,
        kind: if comment_has_tag(m.comment, lang_name_tag()) {
            UnitKindV::LangName
        } else {
            match m.value {
                None => UnitKindV::Empty,
                Some(p) => UnitKindV::Text {
                    stripped: stripped_text(p),
                    placeholders: placeholders(p),
                },
            }
        },
    }
}

/// The pending units among `es[i..]`, in source order: one per message whose
/// verdict is `NeedsTranslation`.
pub open spec fn spec_plan_from(
    es: Seq<EntryV>,
    i: int,
    prior: Option<ResourceV>,
    existing: Option<ResourceV>,
) -> Seq<TranslationUnitV>
    decreases es.len() - i,
{
    if i < 0 || i >= es.len() {
        Seq::empty()
    } else {
        let rest = spec_plan_from(es, i + 1, prior, existing);
        match es[i] {
            EntryV::Message(m) => if spec_decide(m, prior, existing)
                == Verdict::NeedsTranslation {
                seq![spec_unit_for(m)] + rest
            } else {
                rest
            },
            _ => rest,
        }
    }
}

/// All pending units of the source resource, in source order.
pub open spec fn spec_plan(
    source: ResourceV,
    prior: Option<ResourceV>,
    existing: Option<ResourceV>,
) -> Seq<TranslationUnitV> {
    spec_plan_from(source.entries, 0, prior, existing)
}

/// Builds the pending unit for one message that needs translation.
pub fn unit_for(m: &Message) -> (r: TranslationUnit)
    ensures
        r@ == spec_unit_for(m@),
{
    let kind = if opt_comment_has_tag(&m.comment, "tt-lang-name") {
        UnitKind::LangName
    } else {
        match &m.value {
            None => UnitKind::Empty,
            Some(p) => {
                let (stripped, ps) = strip(p);
                UnitKind::Text { stripped, placeholders: ps }
            },
        }
    };
    TranslationUnit { id: m.id.clone(), kind }
}

/// Walks the source resource in order and collects one pending unit per
/// message whose verdict is `NeedsTranslation`.
pub fn plan_translations(
    source: &Resource,
    prior: Option<&Resource>,
    existing: Option<&Resource>,
) -> (r: Vec<TranslationUnit>)
    ensures
        units_view(r@) == spec_plan(source@, opt_resource_view(prior), opt_resource_view(existing)),
{
    let n = source.entries.len();
    let mut units: Vec<TranslationUnit> = Vec::new();
    let mut i: usize = 0;
    while i < n
        invariant
            i <= n,
            n == source.entries.len(),
            source@.entries.len() == n,
            spec_plan(source@, opt_resource_view(prior), opt_resource_view(existing))
                == units_view(units@) + spec_plan_from(
                source@.entries,
                i as int,
                opt_resource_view(prior),
                opt_resource_view(existing),
            ),
        decreases n - i,
    {
        let ghost prev = units_view(units@);
        proof {
            assert(source@.entries[i as int] == source.entries@[i as int]@);
        }
        match &source.entries[i] {
            Entry::Message(m) => {
                let v = decide(m, prior, existing);
                if v == Verdict::NeedsTranslation {
                    let u = unit_for(m);
                    units.push(u);
                    proof {
                        assert(units_view(units@) =~= prev.push(spec_unit_for(m@)));
                        assert(prev + spec_plan_from(
                            source@.entries,
                            i as int,
                            opt_resource_view(prior),
                            opt_resource_view(existing),
                        ) =~= units_view(units@) + spec_plan_from(
                            source@.entries,
                            i + 1,
                            opt_resource_view(prior),
                            opt_resource_view(existing),
                        ));
                    }
                }
            },
            _ => {},
        }
        i += 1;
    }
    units
}

/// What `escaper::decode_html` returns on this input: the text with HTML
/// character entities decoded, or nothing when an entity is malformed. The
/// result depends on the input characters alone.
pub uninterp spec fn html_decoded(s: Seq<char>) -> Option<Seq<char>>;

/// Relies on escaper::decode_html for HTML entity decoding; a decode error
/// becomes `None`.
#[verifier::external_body]
fn html_decode(s: &str) -> (r: Option<String>)
    ensures
        r.deep_view() == html_decoded(s@),
{
    match escaper::decode_html(s) {
        Ok(t) => Some(t),
        Err(_) => None,
    }
}

/// One newline.
pub open spec fn newline_seq() -> Seq<char> {
    seq!['\n']
}

/// A newline followed by the four-space continuation indent the output
/// format requires for multi-line pattern values.
pub open spec fn indent_seq() -> Seq<char> {
    seq!['\n', ' ', ' ', ' ', ' ']
}

/// The two-character artefact the service leaves for a non-breaking space.
pub open spec fn artefact_seq() -> Seq<char> {
    seq!['\u{c2}', ' ']
}

/// One plain space.
pub open spec fn space_seq() -> Seq<char> {
    seq![' ']
}

/// Service-specific cleanup applied to every returned translation: decode
/// HTML entities, indent continuation lines, drop the non-breaking-space
/// artefact. `None` when entity decoding fails.
pub open spec fn spec_postprocess(s: Seq<char>) -> Option<Seq<char>> {
    match html_decoded(s) {
        None => None,
        Some(d) => Some(
            replace_all(replace_all(d, newline_seq(), indent_seq()), artefact_seq(), space_seq()),
        ),
    }
}

/// Cleans up raw text returned by the translation service.
pub fn postprocess_translation(raw: &str) -> (r: Option<String>)
    ensures
        r.deep_view() == spec_postprocess(raw@),
{
    match html_decode(raw) {
        None => None,
        Some(d) => {
            proof {
                reveal_strlit("\n");
                reveal_strlit("\n    ");
                reveal_strlit("\u{c2} ");
                reveal_strlit(" ");
                assert("\n"@ =~= newline_seq());
                assert("\n    "@ =~= indent_seq());
                assert("\u{c2} "@ =~= artefact_seq());
                assert(" "@ =~= space_seq());
            }
            let a = replace_all_exec(d.as_str(), "\n", "\n    ");
            let b = replace_all_exec(a.as_str(), "\u{c2} ", " ");
            Some(b)
        },
    }
}

/// Picks the translated text out of the service response: the last glossary
/// translation when a glossary was used, else the last plain translation;
/// nothing when the response carries no translation.
pub fn select_translation(translations: Vec<String>, glossary_translations: Option<Vec<String>>)
    -> (r: Option<String>)
    ensures
        r.deep_view() == (if translations@.len() == 0 {
            None::<Seq<char>>
        } else {
            match glossary_translations {
                Some(g) => if g@.len() == 0 {
                    None::<Seq<char>>
                } else {
                    Some(g@[g@.len() - 1]@)
                },
                None => Some(translations@[translations@.len() - 1]@),
            }
        }),
{
    if translations.len() == 0 {
        return None;
    }
    match glossary_translations {
        Some(mut g) => g.pop(),
        None => {
            let mut t = translations;
            t.pop()
        },
    }
}

/// The text recorded for one unit, whatever the service outcome was.
///
/// A source-language target bypasses the service and keeps the stripped text;
/// a failed call or failed cleanup degrades to the stripped source text; a
/// failed language-name lookup degrades to the placeholder text.
pub open spec fn spec_resolve_unit(
    u: TranslationUnitV,
    language: Seq<char>,
    o: ServiceOutcomeV,
) -> TranslationResultV {
    TranslationResultV {
        id: u.id,
        text: match u.kind {
            UnitKindV::Empty => None,
            UnitKindV::LangName => Some(
                match o {
                    ServiceOutcomeV::LanguagesFetched(ls) => spec_lang_name(ls, language),
                    _ => lang_name_placeholder(),
                },
            ),
            UnitKindV::Text { stripped, .. } => Some(
                if language == "en"@ {
                    stripped
                } else {
                    match o {
                        ServiceOutcomeV::TextReturned(raw) => match spec_postprocess(raw) {
                            Some(t) => t,
                            None => stripped,
                        },
                        _ => stripped,
                    }
                },
            ),
        },
    }
}

/// Resolves one unit against what the service call produced.
pub fn resolve_unit(u: &TranslationUnit, language: &str, outcome: &ServiceOutcome) -> (r:
    TranslationResult)
    ensures
        r@ == spec_resolve_unit(u@, language@, outcome@),
{
    let text: Option<String> = match &u.kind {
        UnitKind::Empty => None,
        UnitKind::LangName => Some(
            match outcome {
                ServiceOutcome::LanguagesFetched(ls) => get_lang_name(ls, language),
                _ => String::from_str("<INSERT LANGUAGE NAME HERE>"),
            },
        ),
        UnitKind::Text { stripped, .. } => Some(
            if str_eq(language, "en") {
                stripped.clone()
            } else {
                match outcome {
                    ServiceOutcome::TextReturned(raw) => match postprocess_translation(
                        raw.as_str(),
                    ) {
                        Some(t) => t,
                        None => stripped.clone(),
                    },
                    _ => stripped.clone(),
                }
            },
        ),
    };
    TranslationResult { id: u.id.clone(), text }
}

/// The results for a whole plan, unit by unit.
pub open spec fn spec_apply(
    us: Seq<TranslationUnitV>,
    language: Seq<char>,
    os: Seq<ServiceOutcomeV>,
) -> Seq<TranslationResultV> {
    Seq::new(us.len(), |i: int| spec_resolve_unit(us[i], language, os[i]))
}

/// Resolves every unit of the plan against its service outcome.
pub fn apply_outcomes(
    units: &Vec<TranslationUnit>,
    language: &str,
    outcomes: &Vec<ServiceOutcome>,
) -> (r: Vec<TranslationResult>)
    requires
        units@.len() == outcomes@.len(),
    ensures
        results_view(r@) == spec_apply(units_view(units@), language@, outcomes_view(outcomes@)),
{
    let n = units.len();
    let mut out: Vec<TranslationResult> = Vec::new();
    let mut i: usize = 0;
    while i < n
        invariant
            i <= n,
            n == units.len(),
            n == outcomes.len(),
            out@.len() == i,
            forall|k: int|
                0 <= k < i ==> results_view(out@)[k] == spec_resolve_unit(
                    units_view(units@)[k],
                    language@,
                    outcomes_view(outcomes@)[k],
                ),
        decreases n - i,
    {
        let ghost prev_out = out@;
        let r = resolve_unit(&units[i], language, &outcomes[i]);
        out.push(r);
        proof {
            assert(units_view(units@)[i as int] == units@[i as int]@);
            assert(outcomes_view(outcomes@)[i as int] == outcomes@[i as int]@);
            assert forall|k: int| 0 <= k < i + 1 implies results_view(out@)[k]
                == spec_resolve_unit(
                units_view(units@)[k],
                language@,
                outcomes_view(outcomes@)[k],
            ) by {
                assert(results_view(out@)[k] == out@[k]@);
                if k < i {
                    assert(out@[k] == prev_out[k]);
                    assert(results_view(prev_out)[k] == prev_out[k]@);
                    assert(units_view(units@)[k] == units@[k]@);
                    assert(outcomes_view(outcomes@)[k] == outcomes@[k]@);
                }
            }
        }
        i += 1;
    }
    proof {
        assert(results_view(out@) =~= spec_apply(
            units_view(units@),
            language@,
            outcomes_view(outcomes@),
        ));
    }
    out
}

} // verus!
