//! Adapter between catalogue members and the languages of the `lingua` detector.
//!
//! A `lingua` language is held by its two ISO codes, 639-1 and 639-3, as that
//! crate writes them (`en`, `eng`). Which languages the detector offers is
//! handed in as a list. Tagalog (`tl`, `tgl`) and Chinese (`zh`, `zho`) are
//! special: the catalogue tag `fil` maps to Tagalog, and Tagalog and Chinese map
//! back to `fil` and `zh-Hans`.
//!
//! The `lingua` crate itself is not a dependency of this library: it ships
//! statistical models for every language it detects, which makes it very large.
//! A caller that uses it passes `lingua::Language::all()` here as code pairs,
//! `(l.iso_code_639_1().to_string(), l.iso_code_639_3().to_string())`.

use vstd::prelude::*;
use crate::catalogue::{Catalogue, lookup, lemma_parse_tag};
use crate::error::Error;
use crate::tag::{base_of, base_subtag, str_eq};

verus! {

/// A language of the `lingua` detector, by its ISO 639-1 and ISO 639-3 codes.
#[derive(Debug)]
pub struct LinguaLanguage {
    pub iso_639_1: String,
    pub iso_639_3: String,
}

impl View for LinguaLanguage {
    type V = (Seq<char>, Seq<char>);

    open spec fn view(&self) -> (Seq<char>, Seq<char>) {
        (self.iso_639_1@, self.iso_639_3@)
    }
}

impl LinguaLanguage {
    pub fn new(iso_639_1: &str, iso_639_3: &str) -> (r: LinguaLanguage)
        ensures
            r@ == (iso_639_1@, iso_639_3@),
    {
        LinguaLanguage {
            iso_639_1: String::from_str(iso_639_1),
            iso_639_3: String::from_str(iso_639_3),
        }
    }

    pub fn copy(&self) -> (r: LinguaLanguage)
        ensures
            r@ == self@,
    {
        LinguaLanguage { iso_639_1: self.iso_639_1.clone(), iso_639_3: self.iso_639_3.clone() }
    }

    /// Tagalog.
    pub fn tagalog() -> (r: LinguaLanguage)
        ensures
            r@ == tagalog_codes(),
    {
        LinguaLanguage::new("tl", "tgl")
    }
}

pub open spec fn tagalog_codes() -> (Seq<char>, Seq<char>) {
    ("tl"@, "tgl"@)
}

pub open spec fn languages_view(ls: Seq<LinguaLanguage>) -> Seq<(Seq<char>, Seq<char>)> {
    ls.map_values(|l: LinguaLanguage| l@)
}

/// The code of a language: ISO 639-3 where `third`, else ISO 639-1.
pub open spec fn code_of(l: (Seq<char>, Seq<char>), third: bool) -> Seq<char> {
    if third {
        l.1
    } else {
        l.0
    }
}

/// The index of the first language of the list with the given code.
pub open spec fn find_code(ls: Seq<(Seq<char>, Seq<char>)>, code: Seq<char>, third: bool) -> Option<
    int,
>
    decreases ls.len(),
{
    if ls.len() == 0 {
        None
    } else {
        match find_code(ls.drop_last(), code, third) {
            Some(i) => Some(i),
            None => if code_of(ls.last(), third) == code {
                Some(ls.len() - 1)
            } else {
                None
            },
        }
    }
}

proof fn lemma_find_code_extends(ls: Seq<(Seq<char>, Seq<char>)>, code: Seq<char>, third: bool, k: int)
    requires
        0 <= k <= ls.len(),
        find_code(ls.take(k), code, third) is Some,
    ensures
        find_code(ls, code, third) == find_code(ls.take(k), code, third),
        0 <= find_code(ls, code, third)->0 < ls.len(),
    decreases ls.len() - k,
{
    if k < ls.len() {
        assert(ls.take(k + 1).drop_last() == ls.take(k));
        lemma_find_code_extends(ls, code, third, k + 1);
    } else {
        assert(ls.take(k) == ls);
        lemma_find_code_range(ls, code, third);
    }
}

proof fn lemma_find_code_range(ls: Seq<(Seq<char>, Seq<char>)>, code: Seq<char>, third: bool)
    ensures
        find_code(ls, code, third) matches Some(i) ==> 0 <= i < ls.len() && code_of(ls[i], third)
            == code,
    decreases ls.len(),
{
    if ls.len() > 0 {
        lemma_find_code_range(ls.drop_last(), code, third);
    }
}

/// The index of the language of the list for a base subtag: the first whose ISO
/// 639-1 code is the base, else the first whose ISO 639-3 code is.
pub open spec fn language_for_base(ls: Seq<(Seq<char>, Seq<char>)>, base: Seq<char>) -> Option<
    int,
> {
    match find_code(ls, base, false) {
        Some(i) => Some(i),
        None => find_code(ls, base, true),
    }
}

fn find_code_exec(code: &str, languages: &Vec<LinguaLanguage>, third: bool) -> (r: Option<usize>)
    ensures
        r is Some <==> find_code(languages_view(languages@), code@, third) is Some,
        r matches Some(i) ==> find_code(languages_view(languages@), code@, third) == Some(i as int)
            && i < languages@.len(),
{
    let ghost ls = languages_view(languages@);
    let mut i: usize = 0;
    while i < languages.len()
        invariant
            i <= languages@.len(),
            ls == languages_view(languages@),
            find_code(ls.take(i as int), code@, third) is None,
        decreases languages@.len() - i,
    {
        assert(ls[i as int] == languages@[i as int]@);
        assert(ls.take(i as int + 1).drop_last() == ls.take(i as int));
        let l = &languages[i];
        let hit = if third {
            str_eq(l.iso_639_3.as_str(), code)
        } else {
            str_eq(l.iso_639_1.as_str(), code)
        };
        if hit {
            proof {
                lemma_find_code_extends(ls, code@, third, i + 1);
            }
            return Some(i);
        }
        i = i + 1;
    }
    assert(ls.take(languages@.len() as int) == ls);
    None
}

/// The language of the list whose ISO 639-1 code is the base subtag, else the one
/// whose ISO 639-3 code is; the first such in the list.
pub fn lingua_language_for_base(base: &str, languages: &Vec<LinguaLanguage>) -> (r: Option<usize>)
    ensures
        r is Some <==> language_for_base(languages_view(languages@), base@) is Some,
        r matches Some(i) ==> language_for_base(languages_view(languages@), base@) == Some(i as int)
            && i < languages@.len(),
{
    match find_code_exec(base, languages, false) {
        Some(i) => Some(i),
        None => find_code_exec(base, languages, true),
    }
}

/// The `lingua` language for a member's tag: Tagalog for base `fil`, otherwise
/// the list's language for the base subtag.
pub open spec fn to_lingua_spec(ls: Seq<(Seq<char>, Seq<char>)>, tag: Seq<char>) -> Option<
    (Seq<char>, Seq<char>),
> {
    if base_of(tag) == "fil"@ {
        Some(tagalog_codes())
    } else {
        match language_for_base(ls, base_of(tag)) {
            Some(i) => Some(ls[i]),
            None => None,
        }
    }
}

/// The member for a `lingua` language: `fil` for Tagalog, `zh-Hans` for Chinese,
/// otherwise the member tagged with its ISO 639-1 code, else with its ISO 639-3 code.
pub open spec fn from_lingua_spec(c: Seq<crate::catalogue::EntryModel>, l: (Seq<char>, Seq<char>)) -> Option<int> {
    if l.1 == "tgl"@ {
        lookup(c, "fil"@)
    } else if l.1 == "zho"@ {
        lookup(c, "zh-Hans"@)
    } else if lookup(c, l.0) is Some {
        lookup(c, l.0)
    } else {
        lookup(c, l.1)
    }
}

/// The `lingua` language of a member.
pub fn to_lingua(c: &Catalogue, m: usize, languages: &Vec<LinguaLanguage>) -> (r: Result<
    LinguaLanguage,
    Error,
>)
    requires
        m < c@.len(),
    ensures
        r is Ok <==> to_lingua_spec(languages_view(languages@), c@[m as int].tag) is Some,
        r matches Ok(l) ==> to_lingua_spec(languages_view(languages@), c@[m as int].tag) == Some(
            l@,
        ),
        r matches Err(e) ==> e matches Error::UnsupportedLinguaBase(b) && b@ == base_of(
            c@[m as int].tag,
        ),
{
    let base = base_subtag(c.tag(m));
    if str_eq(base.as_str(), "fil") {
        return Ok(LinguaLanguage::tagalog());
    }
    match lingua_language_for_base(base.as_str(), languages) {
        Some(i) => {
            assert(languages_view(languages@)[i as int] == languages@[i as int]@);
            Ok(languages[i].copy())
        },
        None => Err(Error::UnsupportedLinguaBase(base)),
    }
}

/// The member for a `lingua` language.
pub fn from_lingua(c: &Catalogue, l: &LinguaLanguage) -> (r: Result<usize, Error>)
    requires
        c.wf(),
    ensures
        r is Ok <==> from_lingua_spec(c@, l@) is Some,
        r matches Ok(m) ==> from_lingua_spec(c@, l@) == Some(m as int),
        r matches Err(e) ==> e matches Error::UnsupportedLinguaLanguage(x) && x@ == l@,
{
    let found = if str_eq(l.iso_639_3.as_str(), "tgl") {
        c.parse("fil")
    } else if str_eq(l.iso_639_3.as_str(), "zho") {
        c.parse("zh-Hans")
    } else {
        match c.parse(l.iso_639_1.as_str()) {
            Some(m) => Some(m),
            None => c.parse(l.iso_639_3.as_str()),
        }
    };
    match found {
        Some(m) => Ok(m),
        None => Err(Error::UnsupportedLinguaLanguage(l.copy())),
    }
}

/// The languages of the list carry the codes of Tagalog and Chinese consistently.
pub open spec fn codes_consistent(ls: Seq<(Seq<char>, Seq<char>)>) -> bool {
    forall|i: int|
        0 <= i < ls.len() ==> (#[trigger] ls[i].1 == "tgl"@ ==> ls[i].0 == "tl"@) && (ls[i].1
            == "zho"@ ==> ls[i].0 == "zh"@)
}

/// For a member whose tag is a bare language subtag other than `zh`, found in
/// the list by its ISO 639-1 code (or `fil`), a successful way back through
/// `lingua` leads to the same member, or from `tl` to `fil`.
pub proof fn lemma_lingua_round_trip(c: &Catalogue, ls: Seq<(Seq<char>, Seq<char>)>, m: int)
    requires
        c.wf(),
        0 <= m < c@.len(),
        codes_consistent(ls),
        base_of(c@[m].tag) == c@[m].tag,
        c@[m].tag != "zh"@,
        to_lingua_spec(ls, c@[m].tag) matches Some(l) && (c@[m].tag == "fil"@ || l.0 == c@[m].tag),
        from_lingua_spec(c@, to_lingua_spec(ls, c@[m].tag)->0) is Some,
    ensures
        from_lingua_spec(c@, to_lingua_spec(ls, c@[m].tag)->0) == Some(m) || (c@[m].tag == "tl"@
            && c@[from_lingua_spec(c@, to_lingua_spec(ls, c@[m].tag)->0)->0].tag == "fil"@),
{
    lemma_parse_tag(c, m);
    let t = c@[m].tag;
    let l = to_lingua_spec(ls, t)->0;
    if t == "fil"@ {
        reveal_strlit("tgl");
        reveal_strlit("tl");
        assert(l == tagalog_codes());
    } else {
        let i = language_for_base(ls, t)->0;
        lemma_find_code_range(ls, t, false);
        lemma_find_code_range(ls, t, true);
        assert(0 <= i < ls.len());
        assert(ls[i] == l);
        assert(ls[i].1 == l.1);
        if l.1 == "tgl"@ {
            let r = lookup(c@, "fil"@)->0;
            assert(c@[r].tag == "fil"@);
        } else if l.1 == "zho"@ {
            assert(l.0 == "zh"@);
        }
    }
}

} // verus!
