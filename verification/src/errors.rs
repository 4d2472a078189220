//! The run-level error taxonomy. Fatal configuration and query errors stop
//! the run; per-unit translation failures are recovered locally and never
//! appear here.

use vstd::prelude::*;

verus! {

/// Why a run cannot proceed.
#[derive(PartialEq, Eq, Structural, Clone, Copy, Debug)]
pub enum Errors {
    /// No credentials file exists at the given path.
    MissingCredentialsFile,
    /// A service query returned an unsuccessful status.
    FailedQuery,
    /// No target locale was requested.
    MissingLanguage,
    /// An unknown shell was named for completion generation.
    InvalidShell,
    /// The requested target locale is not a supported target language.
    InvalidLanguage,
    /// A translation response carried no translation.
    NoTranslations,
}

impl Errors {
    /// The error's display text.
    pub fn as_str(&self) -> (r: &'static str)
        ensures
            r@ == match self {
                Errors::MissingCredentialsFile => "MissingCredentialsFile"@,
                Errors::FailedQuery => "FailedQuery"@,
                Errors::MissingLanguage => "MissingLanguage"@,
                Errors::InvalidShell => "InvalidShell"@,
                Errors::InvalidLanguage => "InvalidLanguage"@,
                Errors::NoTranslations => "NoTranslations"@,
            },
    {
        match self {
            Errors::MissingCredentialsFile => "MissingCredentialsFile",
            Errors::FailedQuery => "FailedQuery",
            Errors::MissingLanguage => "MissingLanguage",
            Errors::InvalidShell => "InvalidShell",
            Errors::InvalidLanguage => "InvalidLanguage",
            Errors::NoTranslations => "NoTranslations",
        }
    }
}

} // verus!
