use std::str::FromStr;

use icu_locale_core::{LanguageIdentifier, Locale};
use language::catalogue::Catalogue;
use language::codegen::load_languages;
use language::error::Error;
use language::locale::{from_language_identifier, from_locale, from_locale_tag, to_language_identifier, to_locale};

fn locale_catalogue() -> Catalogue {
    let rows = [
        ["en", "English", "", "English"],
        ["es", "Spanish", "", "Español"],
        ["zh-Hans", "Chinese", "Chinese (Simplified)", "简体中文"],
        ["pt-BR", "Portuguese", "Portuguese (Brazil)", "Português (Brasil)"],
        ["sr-Latn", "Serbian", "Serbian (Latin)", "Srpski"],
    ];
    let mut s = String::from("<table id=\"languages-table\"><tbody>");
    for row in rows {
        s.push_str("<tr>");
        for cell in row {
            s.push_str(&format!("<td>{cell}</td>"));
        }
        s.push_str("</tr>");
    }
    s.push_str("</tbody></table>");
    load_languages(&s).unwrap()
}

#[test]
fn icu_locale_roundtrip_should_work() {
    let c = locale_catalogue();
    for language in c.all() {
        if let Ok(locale) = to_locale(&c, language) {
            if let Ok(back) = from_locale(&c, &locale) {
                assert_eq!(language, back);
            }
        }
    }
}

#[test]
fn icu_langid_roundtrip_should_work() {
    let c = locale_catalogue();
    for language in c.all() {
        if let Ok(langid) = to_language_identifier(&c, language) {
            if let Ok(back) = from_language_identifier(&c, &langid) {
                assert_eq!(language, back);
            }
        }
    }
}

#[test]
fn unsupported_locale_should_fail() {
    let c = locale_catalogue();
    let locale = Locale::from_str("es-419").unwrap();
    assert!(from_locale(&c, &locale).is_err());
}

#[test]
fn locale_loss_for_regional_variant() {
    let c = locale_catalogue();
    let es = c.parse("es").unwrap();
    assert_eq!(to_locale(&c, es).unwrap().to_string(), "es");
    let locale = Locale::from_str("es-419").unwrap();
    match from_locale(&c, &locale) {
        Err(Error::UnsupportedIcuLocale(s)) => assert_eq!(s, "es-419"),
        other => panic!("unexpected {other:?}"),
    }
}

#[test]
fn locale_round_trips_every_member() {
    let c = locale_catalogue();
    for language in c.all() {
        let locale = to_locale(&c, language).unwrap();
        assert_eq!(from_locale(&c, &locale).unwrap(), language);
        let langid = LanguageIdentifier::from_str(c.tag(language)).unwrap();
        assert_eq!(from_language_identifier(&c, &langid).unwrap(), language);
    }
}

#[test]
fn locale_tag_lookup() {
    let c = locale_catalogue();
    assert_eq!(from_locale_tag(&c, "pt-BR").unwrap(), c.parse("pt-BR").unwrap());
    assert!(matches!(from_locale_tag(&c, "pt"), Err(Error::UnsupportedIcuLocale(_))));
}
