use language::catalogue::Catalogue;
use language::codegen::{catalogue_from_rows, generate, generate_from_rows, load_languages, CodegenError};
use language::emit::{escape, render};
use language::error::Error;
use language::tag::{base_subtag, tag_to_ident, validate_tag};
use language::text::normalize_whitespace;

fn html_of(rows: &[[&str; 4]]) -> String {
    let mut s = String::from("<html><body><table id=\"languages-table\"><thead><tr><th>Tag</th></tr></thead><tbody>");
    for row in rows {
        s.push_str("<tr>");
        for cell in row {
            s.push_str("<td>");
            s.push_str(cell);
            s.push_str("</td>");
        }
        s.push_str("</tr>");
    }
    s.push_str("</tbody></table></body></html>");
    s
}

fn sample_catalogue() -> Catalogue {
    load_languages(&html_of(&[
        ["en", "English", "", "English"],
        ["es", "Spanish", "", "Español"],
        ["fil", "Filipino", "", "Filipino"],
        ["zh-Hans", "Chinese", "Chinese (Simplified)", "简体中文"],
        ["zh-Hant", "Chinese", "Chinese (Traditional)", "繁體中文"],
        ["ba", "Bashkir", "", "Башҡортса"],
        ["pt-BR", "Portuguese", "Portuguese (Brazil)", "Português (Brasil)"],
        ["de", "German", "", "Deutsch"],
    ]))
    .unwrap()
}

fn rows_of(rows: &[&[&str]]) -> Vec<Vec<String>> {
    rows.iter().map(|r| r.iter().map(|c| c.to_string()).collect()).collect()
}

#[test]
fn roundtrip_tags_should_work() {
    let c = sample_catalogue();
    for language in c.all() {
        let tag = c.tag(language);
        assert_eq!(c.try_parse(tag).unwrap(), language);
    }
}

#[test]
fn tags_should_be_unique() {
    let c = sample_catalogue();
    let mut seen = std::collections::HashSet::new();
    for language in c.all() {
        let tag = c.tag(language);
        assert!(seen.insert(tag), "Duplicate tag detected: {tag}.");
    }
    assert_eq!(seen.len(), c.all().len());
}

#[test]
fn names_should_not_be_empty() {
    let c = sample_catalogue();
    for language in c.all() {
        assert!(!c.name(language).is_empty(), "English name is missing.");
        assert!(!c.local_name(language).is_empty(), "Autonym is missing.");
    }
}

#[test]
fn catalogue_is_sorted_by_tag_bytes() {
    let c = sample_catalogue();
    let tags: Vec<&str> = c.all().into_iter().map(|m| c.tag(m)).collect();
    assert_eq!(tags, vec!["ba", "de", "en", "es", "fil", "pt-BR", "zh-Hans", "zh-Hant"]);
    for w in tags.windows(2) {
        assert!(w[0].as_bytes() < w[1].as_bytes());
    }
}

#[test]
fn parse_and_emit_two_rows() {
    let c = load_languages(&html_of(&[
        ["en", "English", "English", "English"],
        ["zh-Hans", "Chinese", "Chinese (Simplified)", "简体中文"],
    ]))
    .unwrap();
    assert_eq!(c.len(), 2);
    assert_eq!(c.ident(0), "En");
    assert_eq!(c.ident(1), "ZhHans");
    assert_eq!(c.tag(0), "en");
    assert_eq!(c.name(1), "Chinese (Simplified)");
    assert_eq!(c.local_name(1), "简体中文");
}

#[test]
fn synthetic_row_is_skipped() {
    let plain = [["en", "English", "", "English"]];
    let with_system = [["en", "English", "", "English"], ["system-default", "System", "", "System"]];
    let a = generate(&html_of(&plain)).unwrap();
    let b = generate(&html_of(&with_system)).unwrap();
    assert_eq!(a, b);
    let upper = [["en", "English", "", "English"], ["x-SYSTEM", "System", "", "System"]];
    assert_eq!(generate(&html_of(&upper)).unwrap(), a);
}

#[test]
fn soft_hyphen_is_stripped() {
    let c = load_languages(&html_of(&[["az", "Azerbaijani", "", "Az\u{00ad}ərbaycan"]])).unwrap();
    assert_eq!(c.local_name(0), "Azərbaycan");
}

#[test]
fn invalid_tag_fails_validation() {
    let r = load_languages(&html_of(&[["en", "English", "", "English"], ["-en", "Bad", "", "Bad"]]));
    match r {
        Err(CodegenError::Validation(msg)) => assert!(msg.contains("-en"), "{msg}"),
        other => panic!("unexpected {other:?}"),
    }
}

#[test]
fn empty_table_is_a_parse_error() {
    let r = load_languages(&html_of(&[]));
    assert!(matches!(r, Err(CodegenError::Parse(_))));
    let short = load_languages(&html_of(&[]).replace("<tbody>", "<tbody><tr><td>en</td><td>English</td></tr>"));
    assert!(matches!(short, Err(CodegenError::Parse(_))));
}

#[test]
fn first_row_wins_on_duplicate_tags() {
    let c = load_languages(&html_of(&[
        ["en", "English", "", "English"],
        ["en", "Other", "", "Other"],
    ]))
    .unwrap();
    assert_eq!(c.len(), 1);
    assert_eq!(c.name(0), "English");
}

#[test]
fn region_name_is_preferred() {
    let c = load_languages(&html_of(&[["pt-BR", "Portuguese", "Portuguese (Brazil)", "Português"]])).unwrap();
    assert_eq!(c.name(0), "Portuguese (Brazil)");
    let d = load_languages(&html_of(&[["pt", "Portuguese", "  ", "Português"]])).unwrap();
    assert_eq!(d.name(0), "Portuguese");
}

#[test]
fn rows_with_empty_fields_are_dropped() {
    let r = load_languages(&html_of(&[["en", "English", "", ""], ["", "X", "", "X"]]));
    assert!(matches!(r, Err(CodegenError::Parse(_))));
}

#[test]
fn colliding_identifiers_fail_validation() {
    let r = catalogue_from_rows(&rows_of(&[&["en-US", "A", "", "A"], &["en-us", "B", "", "B"]]));
    assert!(matches!(r, Err(CodegenError::Validation(_))));
}

#[test]
fn rows_are_read_from_cells() {
    let rows = rows_of(&[&[" de ", "German", "", "Deutsch", "extra"], &["fr", "French", ""]]);
    let c = catalogue_from_rows(&rows).unwrap();
    assert_eq!(c.len(), 1);
    assert_eq!(c.tag(0), "de");
}

#[test]
fn emission_is_deterministic() {
    let doc = html_of(&[["en", "English", "", "English"], ["de", "German", "", "Deutsch"]]);
    assert_eq!(generate(&doc).unwrap(), generate(&doc).unwrap());
    let rows = rows_of(&[&["en", "English", "", "English"]]);
    assert_eq!(generate_from_rows(&rows).unwrap(), generate_from_rows(&rows).unwrap());
}

#[test]
fn render_lists_members_in_order() {
    let c = load_languages(&html_of(&[
        ["zh-Hans", "Chinese", "Chinese (Simplified)", "简体中文"],
        ["en", "English", "", "Eng\"lish\\"],
    ]))
    .unwrap();
    let text = render(&c);
    assert!(text.contains("pub fn all() -> [Self; 2] {"));
    assert!(text.contains("\t\t\tEn => \"en\",\n"));
    assert!(text.contains("\t\t\t\"zh-Hans\" => ZhHans,\n"));
    assert!(text.contains("\t\t\tEn => \"Eng\\\"lish\\\\\",\n"));
    assert!(text.find("\tEn,\n").unwrap() < text.find("\tZhHans,\n").unwrap());
}

#[test]
fn render_counts_many_members() {
    let mut rows: Vec<[String; 4]> = Vec::new();
    for a in ["a", "b", "c", "d"] {
        for b in ["a", "b", "c"] {
            let tag = format!("{a}{b}");
            rows.push([tag.clone(), tag.clone(), String::new(), tag]);
        }
    }
    let refs: Vec<[&str; 4]> = rows.iter().map(|r| [r[0].as_str(), r[1].as_str(), r[2].as_str(), r[3].as_str()]).collect();
    let text = generate(&html_of(&refs)).unwrap();
    assert!(text.contains("[Self; 12]"));
}

#[test]
fn normaliser_examples() {
    assert_eq!(normalize_whitespace("  a \t\n b  "), "a b");
    assert_eq!(normalize_whitespace("a\u{00a0}\u{2003} b"), "a b");
    assert_eq!(normalize_whitespace("Az\u{00ad}ərbaycan"), "Azərbaycan");
    assert_eq!(normalize_whitespace("x\u{0007}y"), "xy");
    assert_eq!(normalize_whitespace(""), "");
    assert_eq!(normalize_whitespace("   "), "");
}

#[test]
fn normaliser_is_idempotent() {
    for s in ["  a  b ", "\u{3000}x\u{00ad}\u{0085}y ", "plain", " \u{2028} "] {
        let once = normalize_whitespace(s);
        assert_eq!(normalize_whitespace(&once), once);
        assert!(!once.contains("  "));
        assert!(!once.contains('\u{00ad}'));
        assert!(!once.chars().any(|c| c.is_control()));
    }
}

#[test]
fn validator_accepts_subset() {
    for t in ["en", "fil", "zh-Hans", "pt-BR", "es-419", "sr-Latn-RS", "de-DE-1901", "ca-valencia"] {
        assert!(validate_tag(t).is_ok(), "{t}");
    }
}

#[test]
fn validator_rejects_outside_subset() {
    for t in ["", "-en", "en-", "e", "engl", "en--US", "en-US-abc", "en-US-abcdefghi", "ünd", "e1", "en-US-ab_cd"] {
        assert!(validate_tag(t).is_err(), "{t}");
    }
    assert!(validate_tag("en-US-abc").unwrap_err().contains("abc"));
}

#[test]
fn identifiers_are_derived() {
    assert_eq!(tag_to_ident("en").unwrap(), "En");
    assert_eq!(tag_to_ident("zh-Hans").unwrap(), "ZhHans");
    assert_eq!(tag_to_ident("pt-BR").unwrap(), "PtBr");
    assert_eq!(tag_to_ident("es-419").unwrap(), "Es419");
    assert!(tag_to_ident("en--US").is_err());
}

#[test]
fn escape_examples() {
    assert_eq!(escape("a\"b\\c"), "a\\\"b\\\\c");
    assert_eq!(escape("plain"), "plain");
}

#[test]
fn base_subtag_examples() {
    assert_eq!(base_subtag("zh-Hans"), "zh");
    assert_eq!(base_subtag("fil"), "fil");
}

#[test]
fn unknown_tag_is_unsupported() {
    let c = sample_catalogue();
    assert!(c.parse("xx").is_none());
    match c.try_parse("xx") {
        Err(Error::UnsupportedLanguageTag(t)) => assert_eq!(t, "xx"),
        other => panic!("unexpected {other:?}"),
    }
}

#[test]
fn validator_messages_name_the_subtag() {
    assert_eq!(validate_tag("en-US-abc").unwrap_err(), "Variant subtag `abc` has invalid length.");
    assert_eq!(validate_tag("en-US-ab_cd").unwrap_err(), "Variant subtag `ab_cd` contains invalid characters.");
    assert_eq!(validate_tag("e1").unwrap_err(), "Invalid language subtag `e1`.");
    assert_eq!(validate_tag("-en").unwrap_err(), "Tag must not start or end with a hyphen.");
}

#[test]
fn validation_error_names_first_bad_tag() {
    let r = load_languages(&html_of(&[
        ["zz-abc", "Z", "", "Z"],
        ["en", "English", "", "English"],
        ["-en", "Bad", "", "Bad"],
    ]));
    match r {
        Err(CodegenError::Validation(msg)) => {
            assert_eq!(msg, "Tag must not start or end with a hyphen. (tag -en)")
        },
        other => panic!("unexpected {other:?}"),
    }
    let collide = catalogue_from_rows(&rows_of(&[&["en-US", "A", "", "A"], &["en-us", "B", "", "B"]]));
    match collide {
        Err(CodegenError::Validation(msg)) => {
            assert_eq!(msg, "Identifier `EnUs` is derived from more than one tag. (tag en-us)")
        },
        other => panic!("unexpected {other:?}"),
    }
}

#[test]
fn synthetic_row_leaves_errors_unchanged() {
    let plain = [["en", "English", "", "English"], ["-en", "Bad", "", "Bad"]];
    let with_system = [["en", "English", "", "English"], ["System", "S", "", "S"], ["-en", "Bad", "", "Bad"]];
    let a = format!("{:?}", generate(&html_of(&plain)));
    let b = format!("{:?}", generate(&html_of(&with_system)));
    assert_eq!(a, b);
}
