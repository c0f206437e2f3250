use language::catalogue::Catalogue;
use language::codegen::load_languages;
use language::error::Error;
use language::whatlang_adapter::{from_whatlang, to_whatlang};
use whatlang::Lang;

fn whatlang_catalogue() -> Catalogue {
    let rows = [
        ["en", "English", "", "English"],
        ["es", "Spanish", "", "Español"],
        ["fil", "Filipino", "", "Filipino"],
        ["zh-Hans", "Chinese", "Chinese (Simplified)", "简体中文"],
        ["zh-Hant", "Chinese", "Chinese (Traditional)", "繁體中文"],
        ["ba", "Bashkir", "", "Башҡортса"],
        ["tl", "Tagalog", "", "Tagalog"],
        ["pt-BR", "Portuguese", "Portuguese (Brazil)", "Português (Brasil)"],
        ["sn", "Shona", "", "chiShona"],
    ];
    let mut s = String::from("<table id=\"languages-table\"><tbody>");
    for row in rows {
        s.push_str("<tr>");
        for cell in row {
            s.push_str(&format!("<td>{cell}</td>"));
        }
        s.push_str("</tr>");
    }
    s.push_str("</tbody></table>");
    load_languages(&s).unwrap()
}

fn whatlang_base(c: &Catalogue, m: usize) -> &str {
    c.tag(m).split('-').next().unwrap()
}

#[test]
fn to_whatlang_roundtrip_supported() {
    let c = whatlang_catalogue();
    for language in c.all() {
        if let Ok(lang) = to_whatlang(&c, language) {
            if let Ok(back) = from_whatlang(&c, lang) {
                let lhs = whatlang_base(&c, language);
                let rhs = whatlang_base(&c, back);
                if !(lhs == rhs || (lhs == "tl" && rhs == "fil")) {
                    panic!("Base mismatch: {lhs} -> {:?} -> {rhs}.", lang);
                }
            }
        }
    }
}

#[test]
fn whatlang_unsupported_language_returns_err() {
    let c = whatlang_catalogue();
    let ba = c.parse("ba").unwrap();
    assert!(to_whatlang(&c, ba).is_err());
    match to_whatlang(&c, ba) {
        Err(Error::UnsupportedWhatlangBase(b)) => assert_eq!(b, "ba"),
        other => panic!("unexpected {other:?}"),
    }
}

#[test]
fn tagalog_maps_to_tgl() {
    let c = whatlang_catalogue();
    let fil = c.parse("fil").unwrap();
    assert_eq!(to_whatlang(&c, fil).unwrap(), Lang::Tgl);
    assert_eq!(from_whatlang(&c, Lang::Tgl).unwrap(), fil);
}

#[test]
fn whatlang_prefers_canonical_locale() {
    let c = whatlang_catalogue();
    assert_eq!(from_whatlang(&c, Lang::Spa).unwrap(), c.parse("es").unwrap());
    assert_eq!(from_whatlang(&c, Lang::Cmn).unwrap(), c.parse("zh-Hans").unwrap());
}

#[test]
fn whatlang_refuses_legacy_tagalog_tag() {
    let c = whatlang_catalogue();
    let tl = c.parse("tl").unwrap();
    assert!(matches!(to_whatlang(&c, tl), Err(Error::UnsupportedWhatlangBase(_))));
}

#[test]
fn whatlang_inverse_only_and_missing_variants() {
    let c = whatlang_catalogue();
    assert_eq!(from_whatlang(&c, Lang::Sna).unwrap(), c.parse("sn").unwrap());
    assert!(matches!(from_whatlang(&c, Lang::Lat), Err(Error::UnsupportedWhatlangLang(Lang::Lat))));
    assert!(matches!(from_whatlang(&c, Lang::Deu), Err(Error::UnsupportedWhatlangLang(Lang::Deu))));
}

#[test]
fn whatlang_uses_base_subtag() {
    let c = whatlang_catalogue();
    let pt = c.parse("pt-BR").unwrap();
    assert_eq!(to_whatlang(&c, pt).unwrap(), Lang::Por);
    let zh = c.parse("zh-Hant").unwrap();
    assert_eq!(to_whatlang(&c, zh).unwrap(), Lang::Cmn);
}

#[test]
fn whatlang_latin_and_yiddish() {
    let doc = "<table id=\"languages-table\"><tbody><tr><td>la</td><td>Latin</td><td></td><td>Latina</td></tr><tr><td>yi</td><td>Yiddish</td><td></td><td>ייִדיש</td></tr></tbody></table>";
    let c = load_languages(doc).unwrap();
    let la = c.parse("la").unwrap();
    let yi = c.parse("yi").unwrap();
    assert_eq!(to_whatlang(&c, la).unwrap(), Lang::Lat);
    assert!(from_whatlang(&c, Lang::Lat).is_err());
    assert_eq!(to_whatlang(&c, yi).unwrap(), Lang::Yid);
    assert_eq!(from_whatlang(&c, Lang::Yid).unwrap(), yi);
    let other = whatlang_catalogue();
    assert!(matches!(from_whatlang(&other, Lang::Yid), Err(Error::UnsupportedWhatlangLang(Lang::Yid))));
}
