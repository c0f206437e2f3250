use language::catalogue::Catalogue;
use language::codegen::load_languages;
use language::error::Error;
use language::lingua::{from_lingua, lingua_language_for_base, to_lingua, LinguaLanguage};

fn lingua_catalogue() -> Catalogue {
    let rows = [
        ["en", "English", "", "English"],
        ["es", "Spanish", "", "Español"],
        ["fil", "Filipino", "", "Filipino"],
        ["zh-Hans", "Chinese", "Chinese (Simplified)", "简体中文"],
        ["ba", "Bashkir", "", "Башҡортса"],
        ["tl", "Tagalog", "", "Tagalog"],
        ["pt-BR", "Portuguese", "Portuguese (Brazil)", "Português (Brasil)"],
    ];
    let mut s = String::from("<table id=\"languages-table\"><tbody>");
    for row in rows {
        s.push_str("<tr>");
        for cell in row {
            s.push_str(&format!("<td>{cell}</td>"));
        }
        s.push_str("</tr>");
    }
    s.push_str("</tbody></table>");
    load_languages(&s).unwrap()
}

fn lingua_languages() -> Vec<LinguaLanguage> {
    vec![
        LinguaLanguage::new("en", "eng"),
        LinguaLanguage::new("es", "spa"),
        LinguaLanguage::new("zh", "zho"),
        LinguaLanguage::new("tl", "tgl"),
        LinguaLanguage::new("pt", "por"),
    ]
}

fn lingua_base(c: &Catalogue, m: usize) -> &str {
    let tag = c.tag(m);
    tag.split_once('-').map_or(tag, |(base, _)| base)
}

#[test]
fn to_lingua_roundtrip_supported() {
    let c = lingua_catalogue();
    let languages = lingua_languages();
    for language in c.all() {
        if let Ok(lang) = to_lingua(&c, language, &languages) {
            if let Ok(back) = from_lingua(&c, &lang) {
                let lhs = lingua_base(&c, language);
                let rhs = lingua_base(&c, back);
                if !(lhs == rhs || (lhs == "tl" && rhs == "fil")) {
                    panic!("Base mismatch: {lhs} -> {:?} -> {rhs}.", lang);
                }
            }
        }
    }
}

#[test]
fn lingua_unsupported_language_returns_err() {
    let c = lingua_catalogue();
    let ba = c.parse("ba").unwrap();
    assert!(to_lingua(&c, ba, &lingua_languages()).is_err());
}

#[test]
fn tagalog_maps_to_tagalog() {
    let c = lingua_catalogue();
    let fil = c.parse("fil").unwrap();
    let l = to_lingua(&c, fil, &lingua_languages()).unwrap();
    assert_eq!((l.iso_639_1.as_str(), l.iso_639_3.as_str()), ("tl", "tgl"));
    assert_eq!(from_lingua(&c, &l).unwrap(), fil);
}

#[test]
fn lingua_prefers_canonical_locale() {
    let c = lingua_catalogue();
    let chinese = LinguaLanguage::new("zh", "zho");
    assert_eq!(from_lingua(&c, &chinese).unwrap(), c.parse("zh-Hans").unwrap());
}

#[test]
fn lingua_lookup_by_either_code() {
    let languages = vec![LinguaLanguage::new("xx", "abc"), LinguaLanguage::new("ab", "abk")];
    assert_eq!(lingua_language_for_base("ab", &languages), Some(1));
    assert_eq!(lingua_language_for_base("abc", &languages), Some(0));
    assert_eq!(lingua_language_for_base("zz", &languages), None);
}

#[test]
fn lingua_missing_language_is_unsupported() {
    let c = lingua_catalogue();
    let german = LinguaLanguage::new("de", "deu");
    match from_lingua(&c, &german) {
        Err(Error::UnsupportedLinguaLanguage(l)) => assert_eq!(l.iso_639_3, "deu"),
        other => panic!("unexpected {other:?}"),
    }
    let pt = c.parse("pt-BR").unwrap();
    let l = to_lingua(&c, pt, &lingua_languages()).unwrap();
    assert_eq!(l.iso_639_1, "pt");
    assert!(from_lingua(&c, &l).is_err());
}

