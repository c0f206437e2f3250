//! The catalogue: a non-empty sequence of entries sorted by tag, with lookup
//! by member index and by tag.

use vstd::prelude::*;
use crate::tag::{
    all_alnum, ident_of, is_upper, lemma_ident_shape, lemma_lt_irreflexive, seq_lt, str_eq, valid_tag,
};
use crate::text::is_normal;
use crate::error::Error;
use vstd::string::*;

verus! {

/// What an entry holds, as character sequences.
pub struct EntryModel {
    pub ident: Seq<char>,
    pub tag: Seq<char>,
    pub english: Seq<char>,
    pub autonym: Seq<char>,
}

/// One language of the catalogue.
#[derive(Debug)]
pub struct Entry {
    ident: String,
    tag: String,
    english: String,
    autonym: String,
}

impl View for Entry {
    type V = EntryModel;

    closed spec fn view(&self) -> EntryModel {
        EntryModel {
            ident: self.ident@,
            tag: self.tag@,
            english: self.english@,
            autonym: self.autonym@,
        }
    }
}

impl Entry {
    pub fn new(ident: String, tag: String, english: String, autonym: String) -> (r: Entry)
        ensures
            r@ == (EntryModel { ident: ident@, tag: tag@, english: english@, autonym: autonym@ }),
    {
        Entry { ident, tag, english, autonym }
    }
}

/// The invariants of one entry: a valid tag, the identifier derived from it,
/// and non-empty display strings in normal form.
pub open spec fn entry_ok(e: EntryModel) -> bool {
    &&& valid_tag(e.tag)
    &&& e.ident == ident_of(e.tag)
    &&& e.english.len() > 0
    &&& is_normal(e.english)
    &&& e.autonym.len() > 0
    &&& is_normal(e.autonym)
}

/// Tags strictly ascending in byte order.
pub open spec fn sorted_by_tag(s: Seq<EntryModel>) -> bool {
    forall|i: int, j: int| 0 <= i < j < s.len() ==> seq_lt(#[trigger] s[i].tag, #[trigger] s[j].tag)
}

pub open spec fn idents_distinct(s: Seq<EntryModel>) -> bool {
    forall|i: int, j: int| 0 <= i < j < s.len() ==> #[trigger] s[i].ident != #[trigger] s[j].ident
}

/// The member whose tag is `t`, if any.
pub open spec fn lookup(s: Seq<EntryModel>, t: Seq<char>) -> Option<int> {
    if exists|i: int| 0 <= i < s.len() && #[trigger] s[i].tag == t {
        Some(choose|i: int| 0 <= i < s.len() && #[trigger] s[i].tag == t)
    } else {
        None
    }
}

/// A closed set of languages; a member is an index into it.
#[derive(Debug)]
pub struct Catalogue {
    entries: Vec<Entry>,
}

impl View for Catalogue {
    type V = Seq<EntryModel>;

    closed spec fn view(&self) -> Seq<EntryModel> {
        self.entries@.map_values(|e: Entry| e@)
    }
}

impl Catalogue {
    /// Non-empty, every entry sound, sorted by tag, identifiers distinct.
    pub open spec fn wf(&self) -> bool {
        &&& self@.len() > 0
        &&& forall|i: int| 0 <= i < self@.len() ==> entry_ok(#[trigger] self@[i])
        &&& sorted_by_tag(self@)
        &&& idents_distinct(self@)
    }

    /// Builds a catalogue from entries that already meet its invariants.
    pub(crate) fn from_entries(entries: Vec<Entry>) -> (r: Catalogue)
        requires
            entries@.len() > 0,
            forall|i: int| 0 <= i < entries@.len() ==> entry_ok(#[trigger] entries@[i]@),
            sorted_by_tag(entries@.map_values(|e: Entry| e@)),
            idents_distinct(entries@.map_values(|e: Entry| e@)),
        ensures
            r@ == entries@.map_values(|e: Entry| e@),
            r.wf(),
    {
        Catalogue { entries }
    }

    /// The number of members.
    pub fn len(&self) -> (r: usize)
        ensures
            r == self@.len(),
    {
        self.entries.len()
    }

    /// Every member, in catalogue order.
    pub fn all(&self) -> (r: Vec<usize>)
        ensures
            r@.len() == self@.len(),
            forall|i: int| 0 <= i < r@.len() ==> r@[i] == i,
    {
        let mut r: Vec<usize> = Vec::new();
        let mut i: usize = 0;
        while i < self.entries.len()
            invariant
                i <= self@.len(),
                self@.len() == self.entries@.len(),
                r@.len() == i,
                forall|j: int| 0 <= j < i ==> r@[j] == j,
            decreases self@.len() - i,
        {
            r.push(i);
            i = i + 1;
        }
        r
    }

    /// The tag of a member.
    pub fn tag(&self, m: usize) -> (r: &str)
        requires
            m < self@.len(),
        ensures
            r@ == self@[m as int].tag,
    {
        self.entries[m].tag.as_str()
    }

    /// The English display name of a member.
    pub fn name(&self, m: usize) -> (r: &str)
        requires
            m < self@.len(),
        ensures
            r@ == self@[m as int].english,
    {
        self.entries[m].english.as_str()
    }

    /// The autonym of a member: its name in its own language.
    pub fn local_name(&self, m: usize) -> (r: &str)
        requires
            m < self@.len(),
        ensures
            r@ == self@[m as int].autonym,
    {
        self.entries[m].autonym.as_str()
    }

    /// The identifier of a member.
    pub fn ident(&self, m: usize) -> (r: &str)
        requires
            m < self@.len(),
        ensures
            r@ == self@[m as int].ident,
    {
        self.entries[m].ident.as_str()
    }

    /// The member with the given tag, or `None` for an unknown tag.
    pub fn parse(&self, tag: &str) -> (r: Option<usize>)
        requires
            self.wf(),
        ensures
            r is Some <==> lookup(self@, tag@) is Some,
            r matches Some(m) ==> lookup(self@, tag@) == Some(m as int),
    {
        let mut i: usize = 0;
        while i < self.entries.len()
            invariant
                i <= self@.len(),
                self@.len() == self.entries@.len(),
                self.wf(),
                forall|j: int| 0 <= j < i ==> (#[trigger] self@[j]).tag != tag@,
            decreases self@.len() - i,
        {
            assert(self.entries@[i as int]@.tag == self@[i as int].tag);
            if str_eq(self.entries[i].tag.as_str(), tag) {
                proof {
                    lemma_lookup_member(self@, i as int);
                }
                return Some(i);
            }
            i = i + 1;
        }
        None
    }
}

impl Catalogue {
    /// The member with the given tag, or `UnsupportedLanguageTag` naming it.
    pub fn try_parse(&self, tag: &str) -> (r: Result<usize, Error>)
        requires
            self.wf(),
        ensures
            r is Ok <==> lookup(self@, tag@) is Some,
            r matches Ok(m) ==> lookup(self@, tag@) == Some(m as int),
            r matches Err(e) ==> e matches Error::UnsupportedLanguageTag(s) && s@ == tag@,
    {
        match self.parse(tag) {
            Some(m) => Ok(m),
            None => Err(Error::UnsupportedLanguageTag(String::from_str(tag))),
        }
    }
}

/// Two members with the same tag are the same member.
pub proof fn lemma_tags_unique(s: Seq<EntryModel>, a: int, b: int)
    requires
        sorted_by_tag(s),
        0 <= a < s.len(),
        0 <= b < s.len(),
        a != b,
    ensures
        s[a].tag != s[b].tag,
{
    lemma_lt_irreflexive(s[a].tag);
    lemma_lt_irreflexive(s[b].tag);
}

proof fn lemma_lookup_member(s: Seq<EntryModel>, m: int)
    requires
        sorted_by_tag(s),
        0 <= m < s.len(),
    ensures
        lookup(s, s[m].tag) == Some(m),
{
    let t = s[m].tag;
    assert(s[m].tag == t);
    let i = choose|i: int| 0 <= i < s.len() && #[trigger] s[i].tag == t;
    if i != m {
        lemma_tags_unique(s, i, m);
    }
}

/// Distinct members have distinct tags.
pub proof fn lemma_catalogue_tags_unique(c: &Catalogue, a: int, b: int)
    requires
        c.wf(),
        0 <= a < c@.len(),
        0 <= b < c@.len(),
        a != b,
    ensures
        c@[a].tag != c@[b].tag,
{
    lemma_tags_unique(c@, a, b);
}

/// Looking up the tag of a member gives that member back.
pub proof fn lemma_parse_tag(c: &Catalogue, m: int)
    requires
        c.wf(),
        0 <= m < c@.len(),
    ensures
        lookup(c@, c@[m].tag) == Some(m),
{
    lemma_lookup_member(c@, m);
}

/// Every member has a non-empty English name and a non-empty autonym.
pub proof fn lemma_names_nonempty(c: &Catalogue, m: int)
    requires
        c.wf(),
        0 <= m < c@.len(),
    ensures
        c@[m].english.len() > 0,
        c@[m].autonym.len() > 0,
{
    assert(entry_ok(c@[m]));
}

/// Members come in strictly ascending byte order of their tags.
pub proof fn lemma_catalogue_order(c: &Catalogue, a: int, b: int)
    requires
        c.wf(),
        0 <= a < b < c@.len(),
    ensures
        seq_lt(c@[a].tag, c@[b].tag),
{
}

/// Every tag of the catalogue passes the validator, and no tag that fails it
/// names a member.
pub proof fn lemma_tags_valid(c: &Catalogue, t: Seq<char>)
    requires
        c.wf(),
    ensures
        forall|m: int| 0 <= m < c@.len() ==> valid_tag(#[trigger] c@[m].tag),
        !valid_tag(t) ==> lookup(c@, t) is None,
{
    assert forall|m: int| 0 <= m < c@.len() implies valid_tag(#[trigger] c@[m].tag) by {
        assert(entry_ok(c@[m]));
    }
}

/// Every identifier starts with an upper-case ASCII letter and holds only ASCII
/// letters and digits; distinct members have distinct identifiers.
pub proof fn lemma_idents(c: &Catalogue, a: int, b: int)
    requires
        c.wf(),
        0 <= a < c@.len(),
        0 <= b < c@.len(),
    ensures
        c@[a].ident.len() > 0,
        is_upper(c@[a].ident[0]),
        all_alnum(c@[a].ident),
        a != b ==> c@[a].ident != c@[b].ident,
{
    assert(entry_ok(c@[a]));
    lemma_ident_shape(c@[a].tag);
}

} // verus!
