//! Adapter between catalogue members and the language enum of the `whatlang`
//! detector.
//!
//! The detector names Tagalog by its ISO 639-3 code `Tgl`. BCP 47 keeps `tl`
//! for legacy Tagalog and `fil` for Filipino, the standard language based on it.
//! The catalogue canonicalises on `fil`: `fil` maps to `Tgl` and back, and the
//! tag `tl` is refused.

use vstd::prelude::*;
use whatlang::Lang;
use crate::catalogue::{Catalogue, lookup, lemma_parse_tag};
use crate::error::Error;
use crate::tag::{base_of, base_subtag, str_eq};

verus! {

/// `whatlang::Lang` is a field-less enum; declared with its variants visible so
/// that the adapter can match on them.
#[verifier::external_type_specification]
pub struct ExLang(whatlang::Lang);

/// The detector variant for a catalogue base subtag; `ory` is an alias of `or`,
/// and `tl` has none. Latin has no way back, and Yiddish and Shona come back
/// only where the catalogue holds `yi` and `sn`.
pub open spec fn whatlang_for_base(base: Seq<char>) -> Option<Lang> {
    if base == "af"@ {
        Some(Lang::Afr)
    } else if base == "am"@ {
        Some(Lang::Amh)
    } else if base == "ar"@ {
        Some(Lang::Ara)
    } else if base == "az"@ {
        Some(Lang::Aze)
    } else if base == "be"@ {
        Some(Lang::Bel)
    } else if base == "bg"@ {
        Some(Lang::Bul)
    } else if base == "bn"@ {
        Some(Lang::Ben)
    } else if base == "ca"@ {
        Some(Lang::Cat)
    } else if base == "cs"@ {
        Some(Lang::Ces)
    } else if base == "cy"@ {
        Some(Lang::Cym)
    } else if base == "da"@ {
        Some(Lang::Dan)
    } else if base == "de"@ {
        Some(Lang::Deu)
    } else if base == "el"@ {
        Some(Lang::Ell)
    } else if base == "en"@ {
        Some(Lang::Eng)
    } else if base == "es"@ {
        Some(Lang::Spa)
    } else if base == "et"@ {
        Some(Lang::Est)
    } else if base == "fa"@ {
        Some(Lang::Pes)
    } else if base == "fi"@ {
        Some(Lang::Fin)
    } else if base == "fr"@ {
        Some(Lang::Fra)
    } else if base == "gu"@ {
        Some(Lang::Guj)
    } else if base == "he"@ {
        Some(Lang::Heb)
    } else if base == "hi"@ {
        Some(Lang::Hin)
    } else if base == "hr"@ {
        Some(Lang::Hrv)
    } else if base == "hu"@ {
        Some(Lang::Hun)
    } else if base == "hy"@ {
        Some(Lang::Hye)
    } else if base == "id"@ {
        Some(Lang::Ind)
    } else if base == "it"@ {
        Some(Lang::Ita)
    } else if base == "ja"@ {
        Some(Lang::Jpn)
    } else if base == "ka"@ {
        Some(Lang::Kat)
    } else if base == "km"@ {
        Some(Lang::Khm)
    } else if base == "kn"@ {
        Some(Lang::Kan)
    } else if base == "ko"@ {
        Some(Lang::Kor)
    } else if base == "la"@ {
        Some(Lang::Lat)
    } else if base == "lt"@ {
        Some(Lang::Lit)
    } else if base == "lv"@ {
        Some(Lang::Lav)
    } else if base == "mk"@ {
        Some(Lang::Mkd)
    } else if base == "ml"@ {
        Some(Lang::Mal)
    } else if base == "mr"@ {
        Some(Lang::Mar)
    } else if base == "my"@ {
        Some(Lang::Mya)
    } else if base == "nb"@ {
        Some(Lang::Nob)
    } else if base == "nl"@ {
        Some(Lang::Nld)
    } else if base == "ne"@ {
        Some(Lang::Nep)
    } else if base == "or"@ {
        Some(Lang::Ori)
    } else if base == "ory"@ {
        Some(Lang::Ori)
    } else if base == "pa"@ {
        Some(Lang::Pan)
    } else if base == "pl"@ {
        Some(Lang::Pol)
    } else if base == "pt"@ {
        Some(Lang::Por)
    } else if base == "ro"@ {
        Some(Lang::Ron)
    } else if base == "ru"@ {
        Some(Lang::Rus)
    } else if base == "si"@ {
        Some(Lang::Sin)
    } else if base == "sk"@ {
        Some(Lang::Slk)
    } else if base == "sl"@ {
        Some(Lang::Slv)
    } else if base == "sr"@ {
        Some(Lang::Srp)
    } else if base == "sv"@ {
        Some(Lang::Swe)
    } else if base == "ta"@ {
        Some(Lang::Tam)
    } else if base == "te"@ {
        Some(Lang::Tel)
    } else if base == "th"@ {
        Some(Lang::Tha)
    } else if base == "tk"@ {
        Some(Lang::Tuk)
    } else if base == "fil"@ {
        Some(Lang::Tgl)
    } else if base == "tr"@ {
        Some(Lang::Tur)
    } else if base == "uk"@ {
        Some(Lang::Ukr)
    } else if base == "ur"@ {
        Some(Lang::Urd)
    } else if base == "uz"@ {
        Some(Lang::Uzb)
    } else if base == "vi"@ {
        Some(Lang::Vie)
    } else if base == "yi"@ {
        Some(Lang::Yid)
    } else if base == "zh"@ {
        Some(Lang::Cmn)
    } else if base == "zu"@ {
        Some(Lang::Zul)
    } else {
        None
    }
}

/// The catalogue tag for a detector variant, where the catalogue's tag set has one.
pub open spec fn tag_for_whatlang(l: Lang) -> Option<Seq<char>> {
    match l {
        Lang::Afr => Some("af"@),
        Lang::Amh => Some("am"@),
        Lang::Ara => Some("ar"@),
        Lang::Aze => Some("az"@),
        Lang::Bel => Some("be"@),
        Lang::Ben => Some("bn"@),
        Lang::Bul => Some("bg"@),
        Lang::Cat => Some("ca"@),
        Lang::Ces => Some("cs"@),
        Lang::Cmn => Some("zh-Hans"@),
        Lang::Cym => Some("cy"@),
        Lang::Dan => Some("da"@),
        Lang::Deu => Some("de"@),
        Lang::Ell => Some("el"@),
        Lang::Eng => Some("en"@),
        Lang::Est => Some("et"@),
        Lang::Fin => Some("fi"@),
        Lang::Fra => Some("fr"@),
        Lang::Guj => Some("gu"@),
        Lang::Heb => Some("he"@),
        Lang::Hin => Some("hi"@),
        Lang::Hrv => Some("hr"@),
        Lang::Hun => Some("hu"@),
        Lang::Hye => Some("hy"@),
        Lang::Ind => Some("id"@),
        Lang::Ita => Some("it"@),
        Lang::Jpn => Some("ja"@),
        Lang::Kan => Some("kn"@),
        Lang::Kat => Some("ka"@),
        Lang::Khm => Some("km"@),
        Lang::Kor => Some("ko"@),
        Lang::Lav => Some("lv"@),
        Lang::Lit => Some("lt"@),
        Lang::Mal => Some("ml"@),
        Lang::Mar => Some("mr"@),
        Lang::Mkd => Some("mk"@),
        Lang::Mya => Some("my"@),
        Lang::Nep => Some("ne"@),
        Lang::Nld => Some("nl"@),
        Lang::Nob => Some("nb"@),
        Lang::Ori => Some("or"@),
        Lang::Pan => Some("pa"@),
        Lang::Pes => Some("fa"@),
        Lang::Pol => Some("pl"@),
        Lang::Por => Some("pt"@),
        Lang::Ron => Some("ro"@),
        Lang::Rus => Some("ru"@),
        Lang::Sin => Some("si"@),
        Lang::Slk => Some("sk"@),
        Lang::Slv => Some("sl"@),
        Lang::Sna => Some("sn"@),
        Lang::Spa => Some("es"@),
        Lang::Srp => Some("sr"@),
        Lang::Swe => Some("sv"@),
        Lang::Tam => Some("ta"@),
        Lang::Tel => Some("te"@),
        Lang::Tgl => Some("fil"@),
        Lang::Tha => Some("th"@),
        Lang::Tuk => Some("tk"@),
        Lang::Tur => Some("tr"@),
        Lang::Ukr => Some("uk"@),
        Lang::Urd => Some("ur"@),
        Lang::Uzb => Some("uz"@),
        Lang::Vie => Some("vi"@),
        Lang::Yid => Some("yi"@),
        Lang::Zul => Some("zu"@),
        _ => None,
    }
}

fn whatlang_for_base_exec(base: &str) -> (r: Option<Lang>)
    ensures
        r == whatlang_for_base(base@),
{
    if str_eq(base, "af") {
        Some(Lang::Afr)
    } else if str_eq(base, "am") {
        Some(Lang::Amh)
    } else if str_eq(base, "ar") {
        Some(Lang::Ara)
    } else if str_eq(base, "az") {
        Some(Lang::Aze)
    } else if str_eq(base, "be") {
        Some(Lang::Bel)
    } else if str_eq(base, "bg") {
        Some(Lang::Bul)
    } else if str_eq(base, "bn") {
        Some(Lang::Ben)
    } else if str_eq(base, "ca") {
        Some(Lang::Cat)
    } else if str_eq(base, "cs") {
        Some(Lang::Ces)
    } else if str_eq(base, "cy") {
        Some(Lang::Cym)
    } else if str_eq(base, "da") {
        Some(Lang::Dan)
    } else if str_eq(base, "de") {
        Some(Lang::Deu)
    } else if str_eq(base, "el") {
        Some(Lang::Ell)
    } else if str_eq(base, "en") {
        Some(Lang::Eng)
    } else if str_eq(base, "es") {
        Some(Lang::Spa)
    } else if str_eq(base, "et") {
        Some(Lang::Est)
    } else if str_eq(base, "fa") {
        Some(Lang::Pes)
    } else if str_eq(base, "fi") {
        Some(Lang::Fin)
    } else if str_eq(base, "fr") {
        Some(Lang::Fra)
    } else if str_eq(base, "gu") {
        Some(Lang::Guj)
    } else if str_eq(base, "he") {
        Some(Lang::Heb)
    } else if str_eq(base, "hi") {
        Some(Lang::Hin)
    } else if str_eq(base, "hr") {
        Some(Lang::Hrv)
    } else if str_eq(base, "hu") {
        Some(Lang::Hun)
    } else if str_eq(base, "hy") {
        Some(Lang::Hye)
    } else if str_eq(base, "id") {
        Some(Lang::Ind)
    } else if str_eq(base, "it") {
        Some(Lang::Ita)
    } else if str_eq(base, "ja") {
        Some(Lang::Jpn)
    } else if str_eq(base, "ka") {
        Some(Lang::Kat)
    } else if str_eq(base, "km") {
        Some(Lang::Khm)
    } else if str_eq(base, "kn") {
        Some(Lang::Kan)
    } else if str_eq(base, "ko") {
        Some(Lang::Kor)
    } else if str_eq(base, "la") {
        Some(Lang::Lat)
    } else if str_eq(base, "lt") {
        Some(Lang::Lit)
    } else if str_eq(base, "lv") {
        Some(Lang::Lav)
    } else if str_eq(base, "mk") {
        Some(Lang::Mkd)
    } else if str_eq(base, "ml") {
        Some(Lang::Mal)
    } else if str_eq(base, "mr") {
        Some(Lang::Mar)
    } else if str_eq(base, "my") {
        Some(Lang::Mya)
    } else if str_eq(base, "nb") {
        Some(Lang::Nob)
    } else if str_eq(base, "nl") {
        Some(Lang::Nld)
    } else if str_eq(base, "ne") {
        Some(Lang::Nep)
    } else if str_eq(base, "or") {
        Some(Lang::Ori)
    } else if str_eq(base, "ory") {
        Some(Lang::Ori)
    } else if str_eq(base, "pa") {
        Some(Lang::Pan)
    } else if str_eq(base, "pl") {
        Some(Lang::Pol)
    } else if str_eq(base, "pt") {
        Some(Lang::Por)
    } else if str_eq(base, "ro") {
        Some(Lang::Ron)
    } else if str_eq(base, "ru") {
        Some(Lang::Rus)
    } else if str_eq(base, "si") {
        Some(Lang::Sin)
    } else if str_eq(base, "sk") {
        Some(Lang::Slk)
    } else if str_eq(base, "sl") {
        Some(Lang::Slv)
    } else if str_eq(base, "sr") {
        Some(Lang::Srp)
    } else if str_eq(base, "sv") {
        Some(Lang::Swe)
    } else if str_eq(base, "ta") {
        Some(Lang::Tam)
    } else if str_eq(base, "te") {
        Some(Lang::Tel)
    } else if str_eq(base, "th") {
        Some(Lang::Tha)
    } else if str_eq(base, "tk") {
        Some(Lang::Tuk)
    } else if str_eq(base, "fil") {
        Some(Lang::Tgl)
    } else if str_eq(base, "tr") {
        Some(Lang::Tur)
    } else if str_eq(base, "uk") {
        Some(Lang::Ukr)
    } else if str_eq(base, "ur") {
        Some(Lang::Urd)
    } else if str_eq(base, "uz") {
        Some(Lang::Uzb)
    } else if str_eq(base, "vi") {
        Some(Lang::Vie)
    } else if str_eq(base, "yi") {
        Some(Lang::Yid)
    } else if str_eq(base, "zh") {
        Some(Lang::Cmn)
    } else if str_eq(base, "zu") {
        Some(Lang::Zul)
    } else {
        None
    }
}

fn tag_for_whatlang_exec(l: Lang) -> (r: Option<&'static str>)
    ensures
        r matches Some(t) ==> tag_for_whatlang(l) == Some(t@),
        r is None <==> tag_for_whatlang(l) is None,
{
    match l {
        Lang::Afr => Some("af"),
        Lang::Amh => Some("am"),
        Lang::Ara => Some("ar"),
        Lang::Aze => Some("az"),
        Lang::Bel => Some("be"),
        Lang::Ben => Some("bn"),
        Lang::Bul => Some("bg"),
        Lang::Cat => Some("ca"),
        Lang::Ces => Some("cs"),
        Lang::Cmn => Some("zh-Hans"),
        Lang::Cym => Some("cy"),
        Lang::Dan => Some("da"),
        Lang::Deu => Some("de"),
        Lang::Ell => Some("el"),
        Lang::Eng => Some("en"),
        Lang::Est => Some("et"),
        Lang::Fin => Some("fi"),
        Lang::Fra => Some("fr"),
        Lang::Guj => Some("gu"),
        Lang::Heb => Some("he"),
        Lang::Hin => Some("hi"),
        Lang::Hrv => Some("hr"),
        Lang::Hun => Some("hu"),
        Lang::Hye => Some("hy"),
        Lang::Ind => Some("id"),
        Lang::Ita => Some("it"),
        Lang::Jpn => Some("ja"),
        Lang::Kan => Some("kn"),
        Lang::Kat => Some("ka"),
        Lang::Khm => Some("km"),
        Lang::Kor => Some("ko"),
        Lang::Lav => Some("lv"),
        Lang::Lit => Some("lt"),
        Lang::Mal => Some("ml"),
        Lang::Mar => Some("mr"),
        Lang::Mkd => Some("mk"),
        Lang::Mya => Some("my"),
        Lang::Nep => Some("ne"),
        Lang::Nld => Some("nl"),
        Lang::Nob => Some("nb"),
        Lang::Ori => Some("or"),
        Lang::Pan => Some("pa"),
        Lang::Pes => Some("fa"),
        Lang::Pol => Some("pl"),
        Lang::Por => Some("pt"),
        Lang::Ron => Some("ro"),
        Lang::Rus => Some("ru"),
        Lang::Sin => Some("si"),
        Lang::Slk => Some("sk"),
        Lang::Slv => Some("sl"),
        Lang::Sna => Some("sn"),
        Lang::Spa => Some("es"),
        Lang::Srp => Some("sr"),
        Lang::Swe => Some("sv"),
        Lang::Tam => Some("ta"),
        Lang::Tel => Some("te"),
        Lang::Tgl => Some("fil"),
        Lang::Tha => Some("th"),
        Lang::Tuk => Some("tk"),
        Lang::Tur => Some("tr"),
        Lang::Ukr => Some("uk"),
        Lang::Urd => Some("ur"),
        Lang::Uzb => Some("uz"),
        Lang::Vie => Some("vi"),
        Lang::Yid => Some("yi"),
        Lang::Zul => Some("zu"),
        _ => None,
    }
}

/// The detector variant of a member, from the base subtag of its tag.
pub fn to_whatlang(c: &Catalogue, m: usize) -> (r: Result<Lang, Error>)
    requires
        m < c@.len(),
    ensures
        r is Ok <==> whatlang_for_base(base_of(c@[m as int].tag)) is Some,
        r matches Ok(l) ==> whatlang_for_base(base_of(c@[m as int].tag)) == Some(l),
        r matches Err(e) ==> e matches Error::UnsupportedWhatlangBase(b) && b@ == base_of(
            c@[m as int].tag,
        ),
{
    let base = base_subtag(c.tag(m));
    match whatlang_for_base_exec(base.as_str()) {
        Some(l) => Ok(l),
        None => Err(Error::UnsupportedWhatlangBase(base)),
    }
}

/// The member for a detector variant: the member whose tag the table gives.
pub fn from_whatlang(c: &Catalogue, l: Lang) -> (r: Result<usize, Error>)
    requires
        c.wf(),
    ensures
        r is Ok <==> (tag_for_whatlang(l) matches Some(t) && lookup(c@, t) is Some),
        r matches Ok(m) ==> (tag_for_whatlang(l) matches Some(t) && lookup(c@, t) == Some(
            m as int,
        )),
        r matches Err(e) ==> e == Error::UnsupportedWhatlangLang(l),
{
    match tag_for_whatlang_exec(l) {
        Some(t) => match c.parse(t) {
            Some(m) => Ok(m),
            None => Err(Error::UnsupportedWhatlangLang(l)),
        },
        None => Err(Error::UnsupportedWhatlangLang(l)),
    }
}

/// For a member whose tag is a bare language subtag other than `zh` and `ory`,
/// a detector variant obtained from it that has a way back leads back to the
/// same member.
pub proof fn lemma_whatlang_round_trip(c: &Catalogue, m: int)
    requires
        c.wf(),
        0 <= m < c@.len(),
        base_of(c@[m].tag) == c@[m].tag,
        c@[m].tag != "zh"@,
        c@[m].tag != "ory"@,
        whatlang_for_base(c@[m].tag) is Some,
        tag_for_whatlang(whatlang_for_base(c@[m].tag)->0) is Some,
    ensures
        tag_for_whatlang(whatlang_for_base(c@[m].tag)->0) == Some(c@[m].tag),
        lookup(c@, c@[m].tag) == Some(m),
{
    lemma_parse_tag(c, m);
}

} // verus!
