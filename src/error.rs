//! The errors of the catalogue's lookups and adapters.

use vstd::prelude::*;
use crate::lingua::LinguaLanguage;

verus! {

/// `icu_locale_core::ParseError`, carried through as an opaque value.
#[verifier::external_type_specification]
#[verifier::external_body]
pub struct ExParseError(icu_locale_core::ParseError);

/// Why a lookup or an adapter could not map a value; each names the rejected value.
#[derive(Debug)]
pub enum Error {
    /// The tag is not in the catalogue.
    UnsupportedLanguageTag(String),
    /// The locale parser rejected a member's tag.
    IcuLocaleParse(icu_locale_core::ParseError),
    /// The locale, rendered as a string, is not in the catalogue.
    UnsupportedIcuLocale(String),
    /// The base subtag has no `lingua` language.
    UnsupportedLinguaBase(String),
    /// The `lingua` language has no member.
    UnsupportedLinguaLanguage(LinguaLanguage),
    /// The base subtag has no `whatlang` variant.
    UnsupportedWhatlangBase(String),
    /// The `whatlang` variant has no member.
    UnsupportedWhatlangLang(whatlang::Lang),
}

} // verus!
