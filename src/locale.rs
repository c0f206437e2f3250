//! Adapter between catalogue members and the locales of `icu_locale_core`.
//!
//! A member becomes a locale by parsing its tag; a locale becomes a member by
//! rendering it to its canonical string and looking that string up. Locales
//! that the catalogue lacks, such as regional variants like `es-419`, fail the
//! way back.

use vstd::prelude::*;
use icu_locale_core::{LanguageIdentifier, Locale, ParseError};
use crate::catalogue::{Catalogue, lookup};
use crate::error::Error;
use crate::tag::{chars_of, push_chars};

verus! {

/// `icu_locale_core::Locale`, carried through as an opaque value.
#[verifier::external_type_specification]
#[verifier::external_body]
pub struct ExLocale(icu_locale_core::Locale);

/// `icu_locale_core::LanguageIdentifier`, carried through as an opaque value.
#[verifier::external_type_specification]
#[verifier::external_body]
pub struct ExLanguageIdentifier(icu_locale_core::LanguageIdentifier);

/// Whether the locale parser accepts a string.
pub uninterp spec fn locale_accepts(tag: Seq<char>) -> bool;

/// The canonical string of a locale.
pub uninterp spec fn locale_text(l: Locale) -> Seq<char>;

/// Whether the language identifier parser accepts a string.
pub uninterp spec fn language_identifier_accepts(tag: Seq<char>) -> bool;

/// The canonical string of a language identifier.
pub uninterp spec fn language_identifier_text(l: LanguageIdentifier) -> Seq<char>;

/// Relies on `Locale::try_from_str`: parses a BCP 47 locale string, or reports
/// why it is not one.
#[verifier::external_body]
fn parse_locale(tag: &str) -> (r: Result<Locale, ParseError>)
    ensures
        r is Ok <==> locale_accepts(tag@),
{
    Locale::try_from_str(tag)
}

/// Relies on `Locale`'s `Display`: the canonical string of the locale.
#[verifier::external_body]
fn locale_string(l: &Locale) -> (r: String)
    ensures
        r@ == locale_text(*l),
{
    l.to_string()
}

/// Relies on `LanguageIdentifier::try_from_str`: parses a BCP 47 language
/// identifier, or reports why it is not one.
#[verifier::external_body]
fn parse_language_identifier(tag: &str) -> (r: Result<LanguageIdentifier, ParseError>)
    ensures
        r is Ok <==> language_identifier_accepts(tag@),
{
    LanguageIdentifier::try_from_str(tag)
}

/// Relies on `LanguageIdentifier`'s `Display`: the canonical string of the identifier.
#[verifier::external_body]
fn language_identifier_string(l: &LanguageIdentifier) -> (r: String)
    ensures
        r@ == language_identifier_text(*l),
{
    l.to_string()
}

/// The member whose tag is the rendered locale string, or `UnsupportedIcuLocale`
/// carrying that string.
pub fn from_locale_tag(c: &Catalogue, rendered: &str) -> (r: Result<usize, Error>)
    requires
        c.wf(),
    ensures
        r is Ok <==> lookup(c@, rendered@) is Some,
        r matches Ok(m) ==> lookup(c@, rendered@) == Some(m as int),
        r matches Err(e) ==> e matches Error::UnsupportedIcuLocale(s) && s@ == rendered@,
{
    match c.parse(rendered) {
        Some(m) => Ok(m),
        None => {
            let mut s = String::new();
            let cs = chars_of(rendered);
            push_chars(&mut s, &cs);
            Err(Error::UnsupportedIcuLocale(s))
        },
    }
}

/// The locale of a member: its tag as the locale parser reads it.
pub fn to_locale(c: &Catalogue, m: usize) -> (r: Result<Locale, Error>)
    requires
        m < c@.len(),
    ensures
        r is Ok <==> locale_accepts(c@[m as int].tag),
        r matches Err(e) ==> e is IcuLocaleParse,
{
    match parse_locale(c.tag(m)) {
        Ok(l) => Ok(l),
        Err(e) => Err(Error::IcuLocaleParse(e)),
    }
}

/// The member of a locale: the one tagged with the locale's canonical string.
pub fn from_locale(c: &Catalogue, l: &Locale) -> (r: Result<usize, Error>)
    requires
        c.wf(),
    ensures
        r is Ok <==> lookup(c@, locale_text(*l)) is Some,
        r matches Ok(m) ==> lookup(c@, locale_text(*l)) == Some(m as int),
        r matches Err(e) ==> e matches Error::UnsupportedIcuLocale(s) && s@ == locale_text(*l),
{
    let s = locale_string(l);
    from_locale_tag(c, s.as_str())
}

/// The language identifier of a member: its tag as the parser reads it.
pub fn to_language_identifier(c: &Catalogue, m: usize) -> (r: Result<LanguageIdentifier, Error>)
    requires
        m < c@.len(),
    ensures
        r is Ok <==> language_identifier_accepts(c@[m as int].tag),
        r matches Err(e) ==> e is IcuLocaleParse,
{
    match parse_language_identifier(c.tag(m)) {
        Ok(l) => Ok(l),
        Err(e) => Err(Error::IcuLocaleParse(e)),
    }
}

/// The member of a language identifier: the one tagged with its canonical string.
pub fn from_language_identifier(c: &Catalogue, l: &LanguageIdentifier) -> (r: Result<usize, Error>)
    requires
        c.wf(),
    ensures
        r is Ok <==> lookup(c@, language_identifier_text(*l)) is Some,
        r matches Ok(m) ==> lookup(c@, language_identifier_text(*l)) == Some(m as int),
        r matches Err(e) ==> e matches Error::UnsupportedIcuLocale(s) && s@
            == language_identifier_text(*l),
{
    let s = language_identifier_string(l);
    from_locale_tag(c, s.as_str())
}

} // verus!
