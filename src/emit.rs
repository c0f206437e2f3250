//! The emitter: the source text of the catalogue module.

use vstd::prelude::*;
use vstd::string::*;
use crate::catalogue::{Catalogue, EntryModel};
use crate::tag::{chars_of, push_chars};
use crate::text::push_char;

verus! {

/// A string with backslashes and double quotes escaped.
pub open spec fn escape_spec(s: Seq<char>) -> Seq<char>
    decreases s.len(),
{
    if s.len() == 0 {
        Seq::empty()
    } else {
        let c = s.last();
        escape_spec(s.drop_last()) + if c == '\\' {
            seq!['\\', '\\']
        } else if c == '"' {
            seq!['\\', '"']
        } else {
            seq![c]
        }
    }
}

/// Escapes backslashes and double quotes for a string literal.
pub fn escape(s: &str) -> (r: String)
    ensures
        r@ == escape_spec(s@),
{
    let cs = chars_of(s);
    let mut r = String::new();
    let mut i: usize = 0;
    while i < cs.len()
        invariant
            i <= cs@.len(),
            cs@ == s@,
            r@ == escape_spec(cs@.take(i as int)),
        decreases cs@.len() - i,
    {
        let c = cs[i];
        assert(cs@.take(i as int + 1).drop_last() == cs@.take(i as int));
        let ghost before = r@;
        if c == '\\' {
            push_char(&mut r, '\\');
            push_char(&mut r, '\\');
            assert(r@ == before + seq!['\\', '\\']);
        } else if c == '"' {
            push_char(&mut r, '\\');
            push_char(&mut r, '"');
            assert(r@ == before + seq!['\\', '"']);
        } else {
            push_char(&mut r, c);
            assert(r@ == before + seq![c]);
        }
        i = i + 1;
    }
    assert(cs@.take(cs@.len() as int) == cs@);
    r
}

pub open spec fn digit_char(d: nat) -> char {
    ((d + 48) as u8) as char
}

/// The decimal digits of a number.
pub open spec fn decimal(n: nat) -> Seq<char>
    decreases n,
{
    if n < 10 {
        seq![digit_char(n)]
    } else {
        decimal(n / 10).push(digit_char(n % 10))
    }
}

fn push_decimal(out: &mut String, n: usize)
    ensures
        final(out)@ == old(out)@ + decimal(n as nat),
    decreases n,
{
    if n >= 10 {
        push_decimal(out, n / 10);
    }
    let d = (n % 10) as u8;
    push_char(out, (d + 48) as char);
}

/// One line of a section of the module, for one entry.
pub open spec fn line(section: int, e: EntryModel) -> Seq<char> {
    if section == 0 {
        "\t/// "@ + e.english + "\n\t"@ + e.ident + ",\n"@
    } else if section == 1 {
        "\t\t\t"@ + e.ident + ",\n"@
    } else if section == 2 {
        "\t\t\t"@ + e.ident + " => \""@ + e.tag + "\",\n"@
    } else if section == 3 {
        "\t\t\t\""@ + e.tag + "\" => "@ + e.ident + ",\n"@
    } else if section == 4 {
        "\t\t\t"@ + e.ident + " => \""@ + escape_spec(e.english) + "\",\n"@
    } else {
        "\t\t\t"@ + e.ident + " => \""@ + escape_spec(e.autonym) + "\",\n"@
    }
}

/// The lines of one section, one per entry, in catalogue order.
pub open spec fn section_text(section: int, es: Seq<EntryModel>) -> Seq<char>
    decreases es.len(),
{
    if es.len() == 0 {
        Seq::empty()
    } else {
        section_text(section, es.drop_last()) + line(section, es.last())
    }
}

/// The text of the emitted module.
pub open spec fn render_spec(es: Seq<EntryModel>) -> Seq<char> {
    "use Language::*;\n\n/// The languages of the Translation.io snapshot, in tag order.\n#[derive(Clone, Copy, Debug, PartialEq, Eq, PartialOrd, Ord)]\npub enum Language {\n"@
        + section_text(0, es)
        + "}\n\nimpl Language {\n\t/// Every language, in tag order.\n\tpub fn all() -> [Self; "@
        + decimal(es.len())
        + "] {\n\t\t[\n"@
        + section_text(1, es)
        + "\t\t]\n\t}\n\n\t/// The language tag.\n\tpub fn tag(&self) -> &'static str {\n\t\tmatch self {\n"@
        + section_text(2, es)
        + "\t\t}\n\t}\n\n\t/// The language with the given tag.\n\tpub fn parse(tag: &str) -> Option<Self> {\n\t\tSome(match tag {\n"@
        + section_text(3, es)
        + "\t\t\t_ => return None,\n\t\t})\n\t}\n\n\t/// The English name.\n\tpub fn name(&self) -> &'static str {\n\t\tmatch self {\n"@
        + section_text(4, es)
        + "\t\t}\n\t}\n\n\t/// The name in the language itself.\n\tpub fn local_name(&self) -> &'static str {\n\t\tmatch self {\n"@
        + section_text(5, es)
        + "\t\t}\n\t}\n}\n"@
}

fn push_str(out: &mut String, s: &str)
    ensures
        final(out)@ == old(out)@ + s@,
{
    out.append(s);
}

fn push_line(out: &mut String, c: &Catalogue, m: usize, section: u8)
    requires
        m < c@.len(),
    ensures
        final(out)@ == old(out)@ + line(section as int, c@[m as int]),
{
    let ident = chars_of(c.ident(m));
    if section == 0 {
        push_str(out, "\t/// ");
        let english = chars_of(c.name(m));
        push_chars(out, &english);
        push_str(out, "\n\t");
        push_chars(out, &ident);
        push_str(out, ",\n");
    } else if section == 1 {
        push_str(out, "\t\t\t");
        push_chars(out, &ident);
        push_str(out, ",\n");
    } else if section == 2 {
        push_str(out, "\t\t\t");
        push_chars(out, &ident);
        push_str(out, " => \"");
        let tag = chars_of(c.tag(m));
        push_chars(out, &tag);
        push_str(out, "\",\n");
    } else if section == 3 {
        push_str(out, "\t\t\t\"");
        let tag = chars_of(c.tag(m));
        push_chars(out, &tag);
        push_str(out, "\" => ");
        push_chars(out, &ident);
        push_str(out, ",\n");
    } else {
        push_str(out, "\t\t\t");
        push_chars(out, &ident);
        push_str(out, " => \"");
        let escaped = if section == 4 {
            escape(c.name(m))
        } else {
            escape(c.local_name(m))
        };
        push_str(out, escaped.as_str());
        push_str(out, "\",\n");
    }
}

fn push_section(out: &mut String, c: &Catalogue, section: u8)
    ensures
        final(out)@ == old(out)@ + section_text(section as int, c@),
{
    let n = c.len();
    let mut i: usize = 0;
    while i < n
        invariant
            n == c@.len(),
            i <= n,
            out@ == old(out)@ + section_text(section as int, c@.take(i as int)),
        decreases n - i,
    {
        push_line(out, c, i, section);
        assert(c@.take(i as int + 1).drop_last() == c@.take(i as int));
        i = i + 1;
    }
    assert(c@.take(n as int) == c@);
}

/// Renders the source text of the catalogue module: a closed enumeration of the
/// members in catalogue order, the list of all members, and the lookups from
/// member to tag, from tag to member, and from member to both names.
pub fn render(c: &Catalogue) -> (r: String)
    ensures
        r@ == render_spec(c@),
{
    let mut out = String::new();
    push_str(&mut out, "use Language::*;\n\n/// The languages of the Translation.io snapshot, in tag order.\n#[derive(Clone, Copy, Debug, PartialEq, Eq, PartialOrd, Ord)]\npub enum Language {\n");
    push_section(&mut out, c, 0);
    push_str(&mut out, "}\n\nimpl Language {\n\t/// Every language, in tag order.\n\tpub fn all() -> [Self; ");
    push_decimal(&mut out, c.len());
    push_str(&mut out, "] {\n\t\t[\n");
    push_section(&mut out, c, 1);
    push_str(&mut out, "\t\t]\n\t}\n\n\t/// The language tag.\n\tpub fn tag(&self) -> &'static str {\n\t\tmatch self {\n");
    push_section(&mut out, c, 2);
    push_str(&mut out, "\t\t}\n\t}\n\n\t/// The language with the given tag.\n\tpub fn parse(tag: &str) -> Option<Self> {\n\t\tSome(match tag {\n");
    push_section(&mut out, c, 3);
    push_str(&mut out, "\t\t\t_ => return None,\n\t\t})\n\t}\n\n\t/// The English name.\n\tpub fn name(&self) -> &'static str {\n\t\tmatch self {\n");
    push_section(&mut out, c, 4);
    push_str(&mut out, "\t\t}\n\t}\n\n\t/// The name in the language itself.\n\tpub fn local_name(&self) -> &'static str {\n\t\tmatch self {\n");
    push_section(&mut out, c, 5);
    push_str(&mut out, "\t\t}\n\t}\n}\n");
    out
}

} // verus!
