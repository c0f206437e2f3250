//! The generator: from the cells of the snapshot's language table to a
//! catalogue, and from a catalogue to the source text of the emitted module.

use vstd::prelude::*;
use vstd::string::*;
use crate::emit::{render, render_spec};
use crate::catalogue::{Catalogue, Entry, EntryModel, entry_ok};
use crate::tag::{
    chars_of, ident_of, lemma_lt_total, lemma_lt_transitive, lemma_valid_no_empty_part, push_chars,
    seq_lt, str_eq, str_less, tag_error, tag_to_ident, to_lower, to_lower_exec, valid_tag,
    validate_tag,
};
use crate::text::{
    is_normal, lemma_normalise_is_normal, normalise_spec, normalize_whitespace, push_char,
};

verus! {

/// What can go wrong while generating the catalogue.
#[derive(Debug)]
pub enum CodegenError {
    /// Reading the snapshot or writing the artifact failed.
    Io(String),
    /// The snapshot could not be read as the expected table, or held no language.
    Parse(String),
    /// A tag is outside the accepted subset, or two tags give one identifier.
    Validation(String),
}

/// The cell texts of each row that the row selector picks in the document,
/// as the HTML parser reads them.
pub uninterp spec fn cell_texts_of(
    document: Seq<char>,
    row_selector: Seq<char>,
    cell_selector: Seq<char>,
) -> Seq<Seq<Seq<char>>>;

/// Relies on scraper's `Html::parse_document`, `Selector::parse`, `Html::select`,
/// `ElementRef::select` and `ElementRef::text`: for each element matching the row
/// selector, in the order in which the parser created the tree's nodes, the text
/// of each matching cell, its descendant text nodes joined in tree order. Both
/// selectors of this crate are valid CSS, which `Selector::parse` accepts.
#[verifier::external_body]
fn select_cell_texts(document: &str, row_selector: &str, cell_selector: &str) -> (r: Result<
    Vec<Vec<String>>,
    String,
>)
    ensures
        row_selector@ == ROW_SELECTOR@ && cell_selector@ == CELL_SELECTOR@ ==> r is Ok,
        r matches Ok(rows) ==> rows.deep_view() == cell_texts_of(
            document@,
            row_selector@,
            cell_selector@,
        ),
{
    let html = scraper::Html::parse_document(document);
    let rows = scraper::Selector::parse(row_selector).map_err(|e| e.to_string())?;
    let cells = scraper::Selector::parse(cell_selector).map_err(|e| e.to_string())?;
    Ok(
        html.select(&rows).map(
            |row| row.select(&cells).map(|cell| cell.text().collect::<String>()).collect(),
        ).collect(),
    )
}

pub open spec fn system_word() -> Seq<char> {
    seq!['s', 'y', 's', 't', 'e', 'm']
}

/// The tag, lower-cased, holds the word `system`: a synthetic row of the vendor.
pub open spec fn is_synthetic(tag: Seq<char>) -> bool {
    exists|i: int| 0 <= i && i + 6 <= tag.len() && #[trigger] system_at(tag, i)
}

/// The word `system` starts at index `i` of the tag, lower-cased.
pub open spec fn system_at(tag: Seq<char>, i: int) -> bool {
    tag.map_values(|c: char| to_lower(c)).subrange(i, i + 6) == system_word()
}

/// Tag, English name and autonym of a row.
pub type RowModel = (Seq<char>, Seq<char>, Seq<char>);

/// The fields that a table row contributes, if it contributes any: rows with
/// fewer than four cells, synthetic rows and rows with an empty field give none.
pub open spec fn row_fields(cells: Seq<Seq<char>>) -> Option<RowModel> {
    if cells.len() < 4 {
        None
    } else {
        let tag = normalise_spec(cells[0]);
        let name = normalise_spec(cells[1]);
        let region = normalise_spec(cells[2]);
        let native = normalise_spec(cells[3]);
        let english = if region.len() > 0 {
            region
        } else {
            name
        };
        if is_synthetic(tag) || tag.len() == 0 || english.len() == 0 || native.len() == 0 {
            None
        } else {
            Some((tag, english, native))
        }
    }
}

/// Inserts a row into a list sorted by tag; a row whose tag is already there is dropped.
pub open spec fn insert_sorted(s: Seq<RowModel>, r: RowModel) -> Seq<RowModel>
    decreases s.len(),
{
    if s.len() == 0 {
        seq![r]
    } else if seq_lt(s[0].0, r.0) {
        seq![s[0]] + insert_sorted(s.drop_first(), r)
    } else if s[0].0 == r.0 {
        s
    } else {
        seq![r] + s
    }
}

/// The rows of the table merged by tag, first row winning, sorted by tag.
pub open spec fn merged(rows: Seq<Seq<Seq<char>>>) -> Seq<RowModel>
    decreases rows.len(),
{
    if rows.len() == 0 {
        Seq::empty()
    } else {
        let m = merged(rows.drop_last());
        match row_fields(rows.last()) {
            Some(f) => insert_sorted(m, f),
            None => m,
        }
    }
}

pub open spec fn rows_sorted(s: Seq<RowModel>) -> bool {
    forall|i: int, j: int| 0 <= i < j < s.len() ==> seq_lt(#[trigger] s[i].0, #[trigger] s[j].0)
}

pub open spec fn row_ok(r: RowModel) -> bool {
    &&& r.0.len() > 0
    &&& r.1.len() > 0
    &&& is_normal(r.1)
    &&& r.2.len() > 0
    &&& is_normal(r.2)
}

/// The entry that a merged row becomes.
pub open spec fn entry_of(r: RowModel) -> EntryModel {
    EntryModel { ident: ident_of(r.0), tag: r.0, english: r.1, autonym: r.2 }
}

pub open spec fn all_tags_valid(m: Seq<RowModel>) -> bool {
    forall|i: int| 0 <= i < m.len() ==> valid_tag(#[trigger] m[i].0)
}

pub open spec fn row_idents_distinct(m: Seq<RowModel>) -> bool {
    forall|i: int, j: int|
        0 <= i < j < m.len() ==> ident_of(#[trigger] m[i].0) != ident_of(#[trigger] m[j].0)
}

/// The note that closes a validation message: the tag in question.
pub open spec fn tag_note(t: Seq<char>) -> Seq<char> {
    seq![' ', '(', 't', 'a', 'g', ' '] + t + seq![')']
}

/// Some earlier row gives the same identifier as row `k`.
pub open spec fn collides(m: Seq<RowModel>, k: int) -> bool {
    exists|j: int| 0 <= j < k && #[trigger] ident_of(m[j].0) == ident_of(m[k].0)
}

/// The first merged row, from index `k` on, whose tag is invalid or whose
/// identifier repeats an earlier one; the number of rows if there is none.
pub open spec fn first_bad_row(m: Seq<RowModel>, k: int) -> int
    decreases m.len() - k,
{
    if k < 0 || k >= m.len() {
        m.len() as int
    } else if !valid_tag(m[k].0) || collides(m, k) {
        k
    } else {
        first_bad_row(m, k + 1)
    }
}

/// The validation message for row `k`: why it is rejected, then its tag.
pub open spec fn row_error(m: Seq<RowModel>, k: int) -> Seq<char> {
    if !valid_tag(m[k].0) {
        tag_error(m[k].0) + tag_note(m[k].0)
    } else {
        "Identifier `"@ + ident_of(m[k].0) + "` is derived from more than one tag."@ + tag_note(
            m[k].0,
        )
    }
}

pub open spec fn no_languages_message() -> Seq<char> {
    "No languages found in source file."@
}

struct Row {
    tag: String,
    english: String,
    autonym: String,
}

impl View for Row {
    type V = RowModel;

    closed spec fn view(&self) -> RowModel {
        (self.tag@, self.english@, self.autonym@)
    }
}

spec fn models(v: Seq<Row>) -> Seq<RowModel> {
    v.map_values(|r: Row| r@)
}

proof fn lemma_insert_at(s: Seq<RowModel>, r: RowModel, p: int)
    requires
        0 <= p <= s.len(),
        forall|i: int| 0 <= i < p ==> seq_lt(#[trigger] s[i].0, r.0),
        p == s.len() || !seq_lt(s[p].0, r.0),
    ensures
        insert_sorted(s, r) == if p < s.len() && s[p].0 == r.0 {
            s
        } else {
            s.insert(p, r)
        },
    decreases p,
{
    if p > 0 {
        let t = s.drop_first();
        assert forall|i: int| 0 <= i < p - 1 implies seq_lt(#[trigger] t[i].0, r.0) by {
            assert(t[i] == s[i + 1]);
        }
        lemma_insert_at(t, r, p - 1);
        assert(seq_lt(s[0].0, r.0));
        if p < s.len() && s[p].0 == r.0 {
            assert(seq![s[0]] + t == s);
        } else {
            assert(seq![s[0]] + t.insert(p - 1, r) == s.insert(p, r));
        }
    } else if s.len() > 0 {
        if s[0].0 != r.0 {
            assert(seq![r] + s == s.insert(0, r));
        }
    } else {
        assert(seq![r] == s.insert(0, r));
    }
}


/// Inserts a row into rows sorted by tag, unless its tag is already there.
fn insert_row(v: &mut Vec<Row>, r: Row)
    requires
        rows_sorted(models(old(v)@)),
    ensures
        models(final(v)@) == insert_sorted(models(old(v)@), r@),
        rows_sorted(models(final(v)@)),
        forall|i: int|
            0 <= i < final(v)@.len() ==> (#[trigger] final(v)@[i])@ == r@ || models(
                old(v)@,
            ).contains(final(v)@[i]@),
{
    let ghost s = models(v@);
    let mut p: usize = 0;
    while p < v.len() && str_less(v[p].tag.as_str(), r.tag.as_str())
        invariant
            p <= v@.len(),
            s == models(v@),
            forall|i: int| 0 <= i < p ==> seq_lt(#[trigger] s[i].0, r@.0),
        decreases v@.len() - p,
    {
        assert(s[p as int] == v@[p as int]@);
        p = p + 1;
    }
    proof {
        if p < v@.len() {
            assert(s[p as int] == v@[p as int]@);
        }
        lemma_insert_at(s, r@, p as int);
    }
    if p < v.len() && str_eq(v[p].tag.as_str(), r.tag.as_str()) {
        assert forall|i: int| 0 <= i < v@.len() implies (#[trigger] v@[i])@ == r@ || s.contains(
            v@[i]@,
        ) by {
            assert(s[i] == v@[i]@);
        }
        return;
    }
    proof {
        if p < v@.len() {
            lemma_lt_total(s[p as int].0, r@.0);
        }
    }
    v.insert(p, r);
    proof {
        let t = models(v@);
        assert(t == s.insert(p as int, r@));
        assert forall|i: int, j: int| 0 <= i < j < t.len() implies seq_lt(
            #[trigger] t[i].0,
            #[trigger] t[j].0,
        ) by {
            if i < p && j == p {
            } else if i < p && j > p {
                assert(t[j] == s[j - 1]);
            } else if i == p && j > p {
                assert(t[j] == s[j - 1]);
                if j - 1 > p {
                    lemma_lt_transitive(r@.0, s[p as int].0, s[j - 1].0);
                }
            } else if j < p {
                assert(t[i] == s[i] && t[j] == s[j]);
            } else {
                assert(t[i] == s[i - 1] && t[j] == s[j - 1]);
            }
        }
        assert forall|i: int| 0 <= i < v@.len() implies (#[trigger] v@[i])@ == r@ || s.contains(
            v@[i]@,
        ) by {
            if i < p {
                assert(t[i] == s[i]);
            } else if i > p {
                assert(t[i] == s[i - 1]);
            }
        }
    }
}

fn system_at_exec(tag: &Vec<char>, i: usize) -> (r: bool)
    requires
        i + 6 <= tag.len(),
    ensures
        r == system_at(tag@, i as int),
{
    let c0 = to_lower_exec(tag[i]);
    let c1 = to_lower_exec(tag[i + 1]);
    let c2 = to_lower_exec(tag[i + 2]);
    let c3 = to_lower_exec(tag[i + 3]);
    let c4 = to_lower_exec(tag[i + 4]);
    let c5 = to_lower_exec(tag[i + 5]);
    let r = c0 == 's' && c1 == 'y' && c2 == 's' && c3 == 't' && c4 == 'e' && c5 == 'm';
    proof {
        let l = tag@.map_values(|c: char| to_lower(c)).subrange(i as int, i + 6);
        assert(l[0] == to_lower(tag@[i as int]));
        assert(l[1] == to_lower(tag@[i + 1]));
        assert(l[2] == to_lower(tag@[i + 2]));
        assert(l[3] == to_lower(tag@[i + 3]));
        assert(l[4] == to_lower(tag@[i + 4]));
        assert(l[5] == to_lower(tag@[i + 5]));
        let w = system_word();
        assert(w[0] == 's' && w[1] == 'y' && w[2] == 's' && w[3] == 't' && w[4] == 'e' && w[5]
            == 'm');
        if r {
            assert(l =~= w);
        }
    }
    r
}

fn is_synthetic_exec(tag: &str) -> (r: bool)
    ensures
        r == is_synthetic(tag@),
{
    let cs = chars_of(tag);
    let mut i: usize = 0;
    while cs.len() >= 6 && i <= cs.len() - 6
        invariant
            cs@ == tag@,
            forall|j: int| 0 <= j < i ==> !#[trigger] system_at(tag@, j),
        decreases cs@.len() - i,
    {
        if system_at_exec(&cs, i) {
            return true;
        }
        i = i + 1;
    }
    assert forall|j: int| 0 <= j && j + 6 <= tag@.len() implies !#[trigger] system_at(tag@, j) by {
        assert(j < i);
    }
    false
}

/// Merges the rows of the table by tag, first row winning, sorted by tag.
fn merge_rows(rows: &Vec<Vec<String>>) -> (r: Vec<Row>)
    ensures
        models(r@) == merged(rows.deep_view()),
        rows_sorted(models(r@)),
        forall|i: int| 0 <= i < r@.len() ==> row_ok(#[trigger] models(r@)[i]),
{
    let ghost dv = rows.deep_view();
    let mut v: Vec<Row> = Vec::new();
    let mut i: usize = 0;
    while i < rows.len()
        invariant
            i <= rows@.len(),
            dv == rows.deep_view(),
            models(v@) == merged(dv.take(i as int)),
            rows_sorted(models(v@)),
            forall|k: int| 0 <= k < v@.len() ==> row_ok(#[trigger] models(v@)[k]),
        decreases rows@.len() - i,
    {
        let cells = &rows[i];
        assert(dv.take(i as int + 1).drop_last() == dv.take(i as int));
        assert(dv[i as int] == cells.deep_view());
        if cells.len() >= 4 {
            assert(forall|k: int| 0 <= k < 4 ==> dv[i as int][k] == (#[trigger] cells@[k])@);
            let tag = normalize_whitespace(cells[0].as_str());
            let name = normalize_whitespace(cells[1].as_str());
            let region = normalize_whitespace(cells[2].as_str());
            let native = normalize_whitespace(cells[3].as_str());
            let english = if !region.as_str().is_empty() {
                region
            } else {
                name
            };
            if !is_synthetic_exec(tag.as_str()) && !tag.as_str().is_empty()
                && !english.as_str().is_empty() && !native.as_str().is_empty() {
                let row = Row { tag, english, autonym: native };
                proof {
                    lemma_normalise_is_normal(dv[i as int][1]);
                    lemma_normalise_is_normal(dv[i as int][2]);
                    lemma_normalise_is_normal(dv[i as int][3]);
                }
                let ghost before = models(v@);
                insert_row(&mut v, row);
                assert forall|k: int| 0 <= k < v@.len() implies row_ok(#[trigger] models(v@)[k]) by {
                    assert(models(v@)[k] == v@[k]@);
                    if v@[k]@ != row@ {
                        let j = choose|j: int| 0 <= j < before.len() && before[j] == v@[k]@;
                        assert(row_ok(before[j]));
                    }
                }
            }
        }
        i = i + 1;
    }
    assert(dv.take(rows@.len() as int) == dv);
    v
}

fn with_note(msg: String, tag: &String) -> (r: String)
    ensures
        r@ == msg@ + tag_note(tag@),
{
    let mut m = msg;
    push_char(&mut m, ' ');
    push_char(&mut m, '(');
    push_char(&mut m, 't');
    push_char(&mut m, 'a');
    push_char(&mut m, 'g');
    push_char(&mut m, ' ');
    let t = chars_of(tag.as_str());
    push_chars(&mut m, &t);
    push_char(&mut m, ')');
    assert(m@ =~= msg@ + tag_note(tag@));
    m
}

/// Builds the catalogue from the cell texts of the table's rows. It fails with
/// `Parse` when no row contributes a language, and with `Validation` when a
/// merged tag is outside the accepted subset or two tags give one identifier;
/// the message then ends by naming a merged tag.
pub fn catalogue_from_rows(rows: &Vec<Vec<String>>) -> (r: Result<Catalogue, CodegenError>)
    ensures
        (r matches Err(CodegenError::Parse(_))) <==> merged(rows.deep_view()).len() == 0,
        r is Ok <==> merged(rows.deep_view()).len() > 0 && all_tags_valid(merged(rows.deep_view()))
            && row_idents_distinct(merged(rows.deep_view())),
        r matches Ok(c) ==> c.wf() && c@ == merged(rows.deep_view()).map_values(
            |x: RowModel| entry_of(x),
        ),
        r matches Err(e) ==> e is Parse || e is Validation,
        r is Ok ==> first_bad_row(merged(rows.deep_view()), 0) == merged(rows.deep_view()).len(),
        r matches Err(CodegenError::Parse(msg)) ==> msg@ == no_languages_message(),
        r matches Err(CodegenError::Validation(msg)) ==> first_bad_row(merged(rows.deep_view()), 0)
            < merged(rows.deep_view()).len() && msg@ == row_error(
            merged(rows.deep_view()),
            first_bad_row(merged(rows.deep_view()), 0),
        ),
{
    let v = merge_rows(rows);
    let ghost m = merged(rows.deep_view());
    if v.len() == 0 {
        return Err(CodegenError::Parse(String::from_str("No languages found in source file.")));
    }
    let mut entries: Vec<Entry> = Vec::new();
    let mut idents: Vec<String> = Vec::new();
    let mut k: usize = 0;
    while k < v.len()
        invariant
            k <= v@.len(),
            m == models(v@),
            m == merged(rows.deep_view()),
            m.len() > 0,
            rows_sorted(m),
            forall|j: int| 0 <= j < m.len() ==> row_ok(#[trigger] m[j]),
            entries@.len() == k,
            idents@.len() == k,
            forall|j: int| 0 <= j < k ==> (#[trigger] entries@[j])@ == entry_of(m[j]),
            forall|j: int| 0 <= j < k ==> (#[trigger] idents@[j])@ == ident_of(m[j].0),
            forall|j: int| 0 <= j < k ==> valid_tag(#[trigger] m[j].0),
            forall|a: int, b: int|
                0 <= a < b < k ==> ident_of(#[trigger] m[a].0) != ident_of(#[trigger] m[b].0),
            first_bad_row(m, 0) == first_bad_row(m, k as int),
        decreases v@.len() - k,
    {
        let row = &v[k];
        assert(m[k as int] == row@);
        match validate_tag(row.tag.as_str()) {
            Err(msg) => {
                let out = with_note(msg, &row.tag);
                assert(out@ == msg@ + tag_note(m[k as int].0));
                assert(first_bad_row(m, k as int) == k);
                return Err(CodegenError::Validation(out));
            },
            Ok(()) => {},
        }
        proof {
            lemma_valid_no_empty_part(row@.0);
        }
        let ident = match tag_to_ident(row.tag.as_str()) {
            Err(msg) => {
                return Err(CodegenError::Validation(with_note(msg, &row.tag)));
            },
            Ok(id) => id,
        };
        let mut j: usize = 0;
        while j < k
            invariant
                j <= k,
                k < m.len(),
                row@ == m[k as int],
                m == merged(rows.deep_view()),
                valid_tag(m[k as int].0),
                first_bad_row(m, 0) == first_bad_row(m, k as int),
                idents@.len() == k,
                ident@ == ident_of(m[k as int].0),
                forall|a: int| 0 <= a < k ==> (#[trigger] idents@[a])@ == ident_of(m[a].0),
                forall|a: int| 0 <= a < j ==> ident_of(#[trigger] m[a].0) != ident_of(m[k as int].0),
            decreases k - j,
        {
            if idents[j] == ident {
                let mut msg = String::from_str("Identifier `");
                let ic = chars_of(ident.as_str());
                push_chars(&mut msg, &ic);
                msg.append("` is derived from more than one tag.");
                let out = with_note(msg, &row.tag);
                assert(out@ == msg@ + tag_note(m[k as int].0));
                assert(ident_of(m[j as int].0) == ident_of(m[k as int].0));
                assert(collides(m, k as int));
                assert(first_bad_row(m, k as int) == k);
                assert(msg@ == "Identifier `"@ + ident_of(m[k as int].0)
                    + "` is derived from more than one tag."@);
                return Err(CodegenError::Validation(out));
            }
            j = j + 1;
        }
        assert(!collides(m, k as int));
        assert(first_bad_row(m, k as int) == first_bad_row(m, k + 1));
        idents.push(ident.clone());
        entries.push(Entry::new(ident, row.tag.clone(), row.english.clone(), row.autonym.clone()));
        k = k + 1;
    }
    let ghost em = entries@.map_values(|e: Entry| e@);
    assert(em =~= m.map_values(|x: RowModel| entry_of(x)));
    assert forall|j: int| 0 <= j < em.len() implies entry_ok(#[trigger] em[j]) by {
        assert(row_ok(m[j]));
    }
    assert forall|a: int, b: int| 0 <= a < b < em.len() implies seq_lt(
        #[trigger] em[a].tag,
        #[trigger] em[b].tag,
    ) by {
        assert(seq_lt(m[a].0, m[b].0));
    }
    assert forall|a: int, b: int| 0 <= a < b < em.len() implies #[trigger] em[a].ident
        != #[trigger] em[b].ident by {
        assert(ident_of(m[a].0) != ident_of(m[b].0));
    }
    Ok(Catalogue::from_entries(entries))
}

/// Selects the rows of the table whose identifier is `languages-table`.
pub const ROW_SELECTOR: &'static str = "#languages-table tbody tr";

/// Selects the cells of a row.
pub const CELL_SELECTOR: &'static str = "td";

/// The cell texts of the language table of a snapshot.
pub open spec fn table_of(document: Seq<char>) -> Seq<Seq<Seq<char>>> {
    cell_texts_of(document, ROW_SELECTOR@, CELL_SELECTOR@)
}

/// Reads the catalogue from the text of a snapshot: the result of
/// `catalogue_from_rows` on the cells of its language table.
pub fn load_languages(document: &str) -> (r: Result<Catalogue, CodegenError>)
    ensures
        (r matches Err(CodegenError::Parse(_))) <==> merged(table_of(document@)).len() == 0,
        r is Ok <==> merged(table_of(document@)).len() > 0 && all_tags_valid(
            merged(table_of(document@)),
        ) && row_idents_distinct(merged(table_of(document@))),
        r matches Ok(c) ==> c.wf() && c@ == merged(table_of(document@)).map_values(
            |x: RowModel| entry_of(x),
        ),
        r is Ok ==> first_bad_row(merged(table_of(document@)), 0) == merged(
            table_of(document@),
        ).len(),
        r matches Err(e) ==> e is Parse || e is Validation,
        r matches Err(CodegenError::Parse(msg)) ==> msg@ == no_languages_message(),
        r matches Err(CodegenError::Validation(msg)) ==> first_bad_row(
            merged(table_of(document@)),
            0,
        ) < merged(table_of(document@)).len() && msg@ == row_error(
            merged(table_of(document@)),
            first_bad_row(merged(table_of(document@)), 0),
        ),
{
    match select_cell_texts(document, ROW_SELECTOR, CELL_SELECTOR) {
        Err(e) => {
            let mut msg = String::from_str("Invalid selector: ");
            msg.append(e.as_str());
            Err(CodegenError::Parse(msg))
        },
        Ok(rows) => catalogue_from_rows(&rows),
    }
}

/// What generating from a table yields, as values.
pub enum Generated {
    /// The text of the catalogue module.
    Text(Seq<char>),
    /// A `Parse` error with its message.
    ParseFailure(Seq<char>),
    /// A `Validation` error with its message.
    ValidationFailure(Seq<char>),
    /// An `Io` error with its message.
    IoFailure(Seq<char>),
}

/// The outcome of a generator call, as values.
pub open spec fn outcome(r: Result<String, CodegenError>) -> Generated {
    match r {
        Ok(t) => Generated::Text(t@),
        Err(CodegenError::Parse(m)) => Generated::ParseFailure(m@),
        Err(CodegenError::Validation(m)) => Generated::ValidationFailure(m@),
        Err(CodegenError::Io(m)) => Generated::IoFailure(m@),
    }
}

/// The artifact generated from the cell texts of the table's rows.
pub open spec fn generated(rows: Seq<Seq<Seq<char>>>) -> Seq<char> {
    render_spec(merged(rows).map_values(|x: RowModel| entry_of(x)))
}

/// What generating from the cell texts of a table yields: no language is a
/// parse failure; else the first bad merged row, in tag order, is a validation
/// failure; else the text of the module.
pub open spec fn generation(rows: Seq<Seq<Seq<char>>>) -> Generated {
    let m = merged(rows);
    if m.len() == 0 {
        Generated::ParseFailure(no_languages_message())
    } else if first_bad_row(m, 0) < m.len() {
        Generated::ValidationFailure(row_error(m, first_bad_row(m, 0)))
    } else {
        Generated::Text(generated(rows))
    }
}

/// Generates the catalogue module from the cell texts of the table's rows; it
/// fails exactly where `catalogue_from_rows` fails.
pub fn generate_from_rows(rows: &Vec<Vec<String>>) -> (r: Result<String, CodegenError>)
    ensures
        outcome(r) == generation(rows.deep_view()),
        r is Ok <==> merged(rows.deep_view()).len() > 0 && all_tags_valid(
            merged(rows.deep_view()),
        ) && row_idents_distinct(merged(rows.deep_view())),
{
    match catalogue_from_rows(rows) {
        Ok(c) => Ok(render(&c)),
        Err(e) => Err(e),
    }
}

/// Generates the catalogue module from the text of a snapshot.
pub fn generate(document: &str) -> (r: Result<String, CodegenError>)
    ensures
        outcome(r) == generation(table_of(document@)),
        r is Ok <==> merged(table_of(document@)).len() > 0 && all_tags_valid(
            merged(table_of(document@)),
        ) && row_idents_distinct(merged(table_of(document@))),
{
    let c = load_languages(document)?;
    Ok(render(&c))
}

/// Generation is deterministic: the same table gives the same outcome, the same
/// text byte for byte or the same error with the same message.
pub proof fn lemma_emission_deterministic(a: Seq<Seq<Seq<char>>>, b: Seq<Seq<Seq<char>>>)
    requires
        a == b,
    ensures
        generation(a) == generation(b),
{
}

/// A row whose tag is synthetic (holds `system`, in any case) is skipped: adding
/// it anywhere in a table changes neither the merged rows nor the outcome.
pub proof fn lemma_synthetic_row_ignored(
    a: Seq<Seq<Seq<char>>>,
    x: Seq<Seq<char>>,
    b: Seq<Seq<Seq<char>>>,
)
    requires
        x.len() > 0,
        is_synthetic(normalise_spec(x[0])),
    ensures
        merged(a + seq![x] + b) == merged(a + b),
        generation(a + seq![x] + b) == generation(a + b),
    decreases b.len(),
{
    assert(row_fields(x) is None);
    if b.len() == 0 {
        assert((a + seq![x] + b).drop_last() == a);
        assert(a + b == a);
    } else {
        lemma_synthetic_row_ignored(a, x, b.drop_last());
        assert((a + seq![x] + b).drop_last() == a + seq![x] + b.drop_last());
        assert((a + b).drop_last() == a + b.drop_last());
        assert((a + seq![x] + b).last() == b.last());
        assert((a + b).last() == b.last());
    }
}

} // verus!
