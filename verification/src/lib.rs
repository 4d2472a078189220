//! Incremental translation synchronization for Fluent localization resources.
//!
//! The crate models a localization resource as an ordered sequence of entries
//! (messages, terms, comments), decides per message whether a fresh machine
//! translation is required by a three-way comparison against a prior source
//! snapshot and an existing target file, strips non-translatable placeholders
//! before text is sent to a translation service, reinserts them afterwards,
//! and reconstructs the output resource text in original source order.

pub mod codec;
pub mod credentials;
pub mod detect;
pub mod errors;
pub mod language;
pub mod laws;
pub mod model;
pub mod orchestrate;
pub mod text;
pub mod writer;
