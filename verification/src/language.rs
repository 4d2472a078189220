//! Supported-language data returned by the translation service, and the pure
//! decisions made over it: filtering to usable target languages, validating
//! the requested locale, and picking a language's localized display name.

use crate::text::str_eq;
use vstd::prelude::*;
use vstd::string::*;

verus! {

/// One language as reported by the translation service.
pub struct LRLanguage {
    pub language_code: String,
    pub display_name: String,
    pub support_source: bool,
    pub support_target: bool,
}

/// Mathematical view of a reported language.
#[verifier::ext_equal]
pub struct LRLanguageV {
    pub language_code: Seq<char>,
    pub display_name: Seq<char>,
    pub support_source: bool,
    pub support_target: bool,
}

impl View for LRLanguage {
    type V = LRLanguageV;

    open spec fn view(&self) -> LRLanguageV {
        LRLanguageV {
            language_code: self.language_code@,
            display_name: self.display_name@,
            support_source: self.support_source,
            support_target: self.support_target,
        }
    }
}

/// The view of a reported language list.
pub open spec fn languages_view(ls: Seq<LRLanguage>) -> Seq<LRLanguageV> {
    ls.map_values(|l: LRLanguage| l@)
}

/// The placeholder used when the target language's display name cannot be
/// determined.
pub open spec fn lang_name_placeholder() -> Seq<char> {
    "<INSERT LANGUAGE NAME HERE>"@
}

/// The display name `get_lang_name` picks: the first language whose code
/// equals `language`, else the placeholder.
pub open spec fn spec_lang_name(ls: Seq<LRLanguageV>, language: Seq<char>) -> Seq<char>
    decreases ls.len(),
{
    if ls.len() == 0 {
        lang_name_placeholder()
    } else if ls[0].language_code == language {
        ls[0].display_name
    } else {
        spec_lang_name(ls.skip(1), language)
    }
}

/// Keeps only the languages usable as translation targets.
pub fn available_languages(languages: Vec<LRLanguage>) -> (r: Vec<LRLanguage>)
    ensures
        languages_view(r@) == languages_view(languages@).filter(
            |l: LRLanguageV| l.support_target,
        ),
{
    let n = languages.len();
    let mut out: Vec<LRLanguage> = Vec::new();
    proof {
        assert(languages_view(languages@.take(0)) =~= Seq::<LRLanguageV>::empty());
        reveal(Seq::filter);
    }
    for i in 0..n
        invariant
            n == languages.len(),
            languages_view(out@) == languages_view(languages@.take(i as int)).filter(
                |l: LRLanguageV| l.support_target,
            ),
    {
        let ghost prev = languages_view(out@);
        let keep = languages[i].support_target;
        if keep {
            let l = LRLanguage {
                language_code: languages[i].language_code.clone(),
                display_name: languages[i].display_name.clone(),
                support_source: languages[i].support_source,
                support_target: languages[i].support_target,
            };
            out.push(l);
        }
        proof {
            reveal(Seq::filter);
            let pred = |l: LRLanguageV| l.support_target;
            let before = languages_view(languages@.take(i as int));
            let after = languages_view(languages@.take(i + 1));
            assert(after.drop_last() =~= before);
            assert(after.last() == languages@[i as int]@);
            if keep {
                assert(languages_view(out@) =~= prev.push(languages@[i as int]@));
                assert(after.filter(pred) =~= before.filter(pred).push(
                    languages@[i as int]@,
                ));
            } else {
                assert(after.filter(pred) =~= before.filter(pred));
            }
        }
    }
    proof {
        assert(languages@.take(n as int) =~= languages@);
    }
    out
}

/// True when `locale` is a usable translation target in the reported list.
pub fn locale_supported(languages: &Vec<LRLanguage>, locale: &str) -> (r: bool)
    ensures
        r == exists|i: int|
            0 <= i < languages@.len() && languages@[i]@.support_target
                && languages@[i]@.language_code == locale@,
{
    let n = languages.len();
    let mut i: usize = 0;
    while i < n
        invariant
            i <= n,
            n == languages.len(),
            forall|k: int|
                0 <= k < i ==> !(languages@[k]@.support_target && languages@[k]@.language_code
                    == locale@),
        decreases n - i,
    {
        if languages[i].support_target && str_eq(languages[i].language_code.as_str(), locale) {
            return true;
        }
        i += 1;
    }
    false
}

/// The localized display name of `language` in the reported list, or the
/// placeholder text when the list does not know the code.
pub fn get_lang_name(languages: &Vec<LRLanguage>, language: &str) -> (r: String)
    ensures
        r@ == spec_lang_name(languages_view(languages@), language@),
{
    let n = languages.len();
    let mut i: usize = 0;
    proof {
        assert(languages_view(languages@).skip(0) =~= languages_view(languages@));
    }
    while i < n
        invariant
            i <= n,
            n == languages.len(),
            spec_lang_name(languages_view(languages@), language@) == spec_lang_name(
                languages_view(languages@).skip(i as int),
                language@,
            ),
        decreases n - i,
    {
        proof {
            let ls = languages_view(languages@);
            assert(ls.skip(i as int)[0] == languages@[i as int]@);
            assert(ls.skip(i as int).skip(1) =~= ls.skip(i + 1));
        }
        if str_eq(languages[i].language_code.as_str(), language) {
            return languages[i].display_name.clone();
        }
        i += 1;
    }
    proof {
        assert(languages_view(languages@).skip(n as int).len() == 0);
    }
    String::from_str("<INSERT LANGUAGE NAME HERE>")
}

} // verus!
