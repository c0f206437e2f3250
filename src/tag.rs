//! Language tags: splitting into subtags, the accepted subset of BCP 47, the
//! identifier derived from a tag, and the byte order on tags.

use vstd::prelude::*;
use vstd::string::*;
use vstd::utf8::is_ascii_chars;
use crate::text::push_char;

verus! {

/// Splits a string at each `-`, left to right; an empty string is one empty part.
pub open spec fn split_dash(s: Seq<char>) -> Seq<Seq<char>>
    decreases s.len(),
{
    if s.len() == 0 {
        seq![Seq::empty()]
    } else {
        let p = split_dash(s.drop_last());
        if s.last() == '-' {
            p.push(Seq::empty())
        } else {
            p.update(p.len() - 1, p.last().push(s.last()))
        }
    }
}

pub proof fn lemma_split_nonempty(s: Seq<char>)
    ensures
        split_dash(s).len() >= 1,
    decreases s.len(),
{
    if s.len() > 0 {
        lemma_split_nonempty(s.drop_last());
    }
}

pub open spec fn is_alpha(c: char) -> bool {
    (0x41 <= (c as u32) && (c as u32) <= 0x5a) || (0x61 <= (c as u32) && (c as u32) <= 0x7a)
}

pub open spec fn is_digit(c: char) -> bool {
    0x30 <= (c as u32) && (c as u32) <= 0x39
}

pub open spec fn all_alpha(p: Seq<char>) -> bool {
    forall|i: int| 0 <= i < p.len() ==> is_alpha(#[trigger] p[i])
}

pub open spec fn all_digit(p: Seq<char>) -> bool {
    forall|i: int| 0 <= i < p.len() ==> is_digit(#[trigger] p[i])
}

pub open spec fn all_alnum(p: Seq<char>) -> bool {
    forall|i: int| 0 <= i < p.len() ==> is_alpha(#[trigger] p[i]) || is_digit(p[i])
}

pub open spec fn is_language(p: Seq<char>) -> bool {
    2 <= p.len() <= 3 && all_alpha(p)
}

pub open spec fn is_script(p: Seq<char>) -> bool {
    p.len() == 4 && all_alpha(p)
}

pub open spec fn is_region(p: Seq<char>) -> bool {
    (p.len() == 2 && all_alpha(p)) || (p.len() == 3 && all_digit(p))
}

pub open spec fn is_variant(p: Seq<char>) -> bool {
    4 <= p.len() <= 8 && all_alnum(p)
}

/// Index of the first subtag after the language and the optional script.
pub open spec fn after_script(parts: Seq<Seq<char>>) -> int {
    if parts.len() > 1 && is_script(parts[1]) {
        2
    } else {
        1
    }
}

/// Index of the first variant subtag: after the optional region.
pub open spec fn first_variant(parts: Seq<Seq<char>>) -> int {
    let k = after_script(parts);
    if parts.len() > k && is_region(parts[k]) {
        k + 1
    } else {
        k
    }
}

pub open spec fn valid_parts(parts: Seq<Seq<char>>) -> bool {
    &&& parts.len() >= 1
    &&& is_language(parts[0])
    &&& forall|i: int| first_variant(parts) <= i < parts.len() ==> is_variant(#[trigger] parts[i])
}

/// The accepted subset of BCP 47: ASCII, no hyphen at either end, a language of
/// two or three letters, an optional script, an optional region, then variants.
pub open spec fn valid_tag(s: Seq<char>) -> bool {
    &&& s.len() > 0
    &&& is_ascii_chars(s)
    &&& s[0] != '-'
    &&& s.last() != '-'
    &&& valid_parts(split_dash(s))
}

/// The part of a tag before its first hyphen.
pub open spec fn base_of(s: Seq<char>) -> Seq<char> {
    split_dash(s)[0]
}

/// Reads the characters of a string.
pub fn chars_of(s: &str) -> (r: Vec<char>)
    ensures
        r@ == s@,
{
    let n = s.unicode_len();
    let mut r: Vec<char> = Vec::new();
    let mut i: usize = 0;
    while i < n
        invariant
            n == s@.len(),
            i <= n,
            r@ == s@.take(i as int),
        decreases n - i,
    {
        r.push(s.get_char(i));
        assert(s@.take(i as int + 1) == s@.take(i as int).push(s@[i as int]));
        i = i + 1;
    }
    assert(s@.take(n as int) == s@);
    r
}

/// Appends the characters of `cs` to `s`.
pub fn push_chars(s: &mut String, cs: &Vec<char>)
    ensures
        final(s)@ == old(s)@ + cs@,
{
    let mut i: usize = 0;
    while i < cs.len()
        invariant
            i <= cs@.len(),
            s@ == old(s)@ + cs@.take(i as int),
        decreases cs@.len() - i,
    {
        push_char(s, cs[i]);
        assert(cs@.take(i as int + 1) == cs@.take(i as int).push(cs@[i as int]));
        i = i + 1;
    }
    assert(cs@.take(cs@.len() as int) == cs@);
}

/// Splits a tag into its subtags.
pub fn split_parts(s: &Vec<char>) -> (r: Vec<Vec<char>>)
    ensures
        r@.len() == split_dash(s@).len(),
        forall|i: int| 0 <= i < r@.len() ==> (#[trigger] r@[i])@ == split_dash(s@)[i],
{
    let mut parts: Vec<Vec<char>> = Vec::new();
    let mut cur: Vec<char> = Vec::new();
    let mut i: usize = 0;
    while i < s.len()
        invariant
            i <= s@.len(),
            parts@.len() + 1 == split_dash(s@.take(i as int)).len(),
            forall|j: int|
                0 <= j < parts@.len() ==> (#[trigger] parts@[j])@ == split_dash(s@.take(i as int))[j],
            cur@ == split_dash(s@.take(i as int)).last(),
        decreases s@.len() - i,
    {
        let c = s[i];
        assert(s@.take(i as int + 1).drop_last() == s@.take(i as int));
        proof {
            lemma_split_nonempty(s@.take(i as int));
        }
        if c == '-' {
            parts.push(cur);
            cur = Vec::new();
        } else {
            cur.push(c);
        }
        i = i + 1;
    }
    assert(s@.take(s@.len() as int) == s@);
    parts.push(cur);
    parts
}

fn is_alpha_exec(c: char) -> (r: bool)
    ensures
        r == is_alpha(c),
{
    let u = c as u32;
    (0x41 <= u && u <= 0x5a) || (0x61 <= u && u <= 0x7a)
}

fn is_digit_exec(c: char) -> (r: bool)
    ensures
        r == is_digit(c),
{
    let u = c as u32;
    0x30 <= u && u <= 0x39
}

fn all_alpha_exec(p: &Vec<char>) -> (r: bool)
    ensures
        r == all_alpha(p@),
{
    let mut i: usize = 0;
    while i < p.len()
        invariant
            i <= p@.len(),
            forall|j: int| 0 <= j < i ==> is_alpha(#[trigger] p@[j]),
        decreases p@.len() - i,
    {
        if !is_alpha_exec(p[i]) {
            return false;
        }
        i = i + 1;
    }
    true
}

fn all_digit_exec(p: &Vec<char>) -> (r: bool)
    ensures
        r == all_digit(p@),
{
    let mut i: usize = 0;
    while i < p.len()
        invariant
            i <= p@.len(),
            forall|j: int| 0 <= j < i ==> is_digit(#[trigger] p@[j]),
        decreases p@.len() - i,
    {
        if !is_digit_exec(p[i]) {
            return false;
        }
        i = i + 1;
    }
    true
}

fn all_alnum_exec(p: &Vec<char>) -> (r: bool)
    ensures
        r == all_alnum(p@),
{
    let mut i: usize = 0;
    while i < p.len()
        invariant
            i <= p@.len(),
            forall|j: int| 0 <= j < i ==> is_alpha(#[trigger] p@[j]) || is_digit(p@[j]),
        decreases p@.len() - i,
    {
        if !is_alpha_exec(p[i]) && !is_digit_exec(p[i]) {
            return false;
        }
        i = i + 1;
    }
    true
}

pub open spec fn to_upper(c: char) -> char {
    if 0x61 <= (c as u32) && (c as u32) <= 0x7a {
        (((c as u32) - 32) as u8) as char
    } else {
        c
    }
}

pub open spec fn to_lower(c: char) -> char {
    if 0x41 <= (c as u32) && (c as u32) <= 0x5a {
        (((c as u32) + 32) as u8) as char
    } else {
        c
    }
}

pub(crate) fn to_upper_exec(c: char) -> (r: char)
    ensures
        r == to_upper(c),
{
    if 0x61 <= (c as u32) && (c as u32) <= 0x7a {
        ((c as u8) - 32) as char
    } else {
        c
    }
}

pub(crate) fn to_lower_exec(c: char) -> (r: char)
    ensures
        r == to_lower(c),
{
    if 0x41 <= (c as u32) && (c as u32) <= 0x5a {
        ((c as u8) + 32) as char
    } else {
        c
    }
}

/// The identifier fragment of one subtag: first character upper case, the rest lower case.
pub open spec fn ident_part(p: Seq<char>) -> Seq<char> {
    seq![to_upper(p[0])] + p.drop_first().map_values(|c: char| to_lower(c))
}

/// The identifier of a list of subtags: their fragments, concatenated.
pub open spec fn ident_of_parts(parts: Seq<Seq<char>>) -> Seq<char>
    decreases parts.len(),
{
    if parts.len() == 0 {
        Seq::empty()
    } else {
        ident_of_parts(parts.drop_last()) + ident_part(parts.last())
    }
}

/// The identifier derived from a tag.
pub open spec fn ident_of(tag: Seq<char>) -> Seq<char> {
    ident_of_parts(split_dash(tag))
}

pub open spec fn no_empty_part(tag: Seq<char>) -> bool {
    forall|i: int| 0 <= i < split_dash(tag).len() ==> (#[trigger] split_dash(tag)[i]).len() > 0
}

/// The index of the first subtag at or after `i` that is not a variant, or the
/// number of subtags if there is none.
pub open spec fn first_non_variant(parts: Seq<Seq<char>>, i: int) -> int
    decreases parts.len() - i,
{
    if i >= parts.len() || i < 0 {
        parts.len() as int
    } else if !is_variant(parts[i]) {
        i
    } else {
        first_non_variant(parts, i + 1)
    }
}

/// The message with which the validator rejects a tag: the first rule broken,
/// naming the offending subtag where the fault lies in one.
pub open spec fn tag_error(t: Seq<char>) -> Seq<char> {
    if t.len() == 0 {
        "Tag is empty."@
    } else if !is_ascii_chars(t) {
        "Tag contains non-ASCII characters."@
    } else if t[0] == '-' || t.last() == '-' {
        "Tag must not start or end with a hyphen."@
    } else if !is_language(split_dash(t)[0]) {
        "Invalid language subtag `"@ + split_dash(t)[0] + "`."@
    } else {
        let v = split_dash(t)[first_non_variant(split_dash(t), first_variant(split_dash(t)))];
        if v.len() < 4 || v.len() > 8 {
            "Variant subtag `"@ + v + "` has invalid length."@
        } else {
            "Variant subtag `"@ + v + "` contains invalid characters."@
        }
    }
}

fn message(prefix: &str, part: &Vec<char>, suffix: &str) -> (r: String)
    ensures
        r@ == prefix@ + part@ + suffix@,
{
    let mut m = String::from_str(prefix);
    push_chars(&mut m, part);
    m.append(suffix);
    m
}

/// Checks a tag against the accepted subset of BCP 47; the error names the
/// offending subtag where there is one.
pub fn validate_tag(tag: &str) -> (r: Result<(), String>)
    ensures
        r is Ok <==> valid_tag(tag@),
        r matches Err(msg) ==> msg@ == tag_error(tag@),
{
    let cs = chars_of(tag);
    if cs.len() == 0 {
        return Err(String::from_str("Tag is empty."));
    }
    if !tag.is_ascii() {
        return Err(String::from_str("Tag contains non-ASCII characters."));
    }
    if cs[0] == '-' || cs[cs.len() - 1] == '-' {
        return Err(String::from_str("Tag must not start or end with a hyphen."));
    }
    let parts = split_parts(&cs);
    proof {
        lemma_split_nonempty(cs@);
    }
    let ghost sp = split_dash(tag@);
    assert(parts@[0]@ == sp[0]);
    let language = &parts[0];
    if language.len() < 2 || language.len() > 3 || !all_alpha_exec(language) {
        return Err(message("Invalid language subtag `", language, "`."));
    }
    let mut k: usize = 1;
    if parts.len() > 1 && parts[1].len() == 4 && all_alpha_exec(&parts[1]) {
        k = 2;
    }
    assert(parts@.len() > 1 ==> parts@[1]@ == sp[1]);
    assert(k == after_script(sp));
    if parts.len() > k {
        let region = &parts[k];
        assert(region@ == sp[k as int]);
        if (region.len() == 2 && all_alpha_exec(region)) || (region.len() == 3 && all_digit_exec(
            region,
        )) {
            k = k + 1;
        }
    }
    assert(k == first_variant(sp));
    assert(tag@ == cs@);
    let mut j: usize = k;
    while j < parts.len()
        invariant
            k <= j <= parts@.len(),
            k == first_variant(sp),
            sp == split_dash(tag@),
            parts@.len() == sp.len(),
            forall|i: int| 0 <= i < parts@.len() ==> (#[trigger] parts@[i])@ == sp[i],
            forall|i: int| k <= i < j ==> is_variant(#[trigger] sp[i]),
            first_non_variant(sp, k as int) == first_non_variant(sp, j as int),
            is_language(sp[0]),
            tag@.len() > 0 && is_ascii_chars(tag@) && tag@[0] != '-' && tag@.last() != '-',
        decreases parts@.len() - j,
    {
        let variant = &parts[j];
        assert(variant@ == sp[j as int]);
        if variant.len() >= 4 && variant.len() <= 8 && all_alnum_exec(variant) {
            assert(first_non_variant(sp, j as int) == first_non_variant(sp, j + 1));
        } else {
            assert(first_non_variant(sp, j as int) == j);
        }
        if variant.len() < 4 || variant.len() > 8 {
            assert(!is_variant(sp[j as int]));
            return Err(message("Variant subtag `", variant, "` has invalid length."));
        }
        if !all_alnum_exec(variant) {
            assert(!is_variant(sp[j as int]));
            return Err(message("Variant subtag `", variant, "` contains invalid characters."));
        }
        j = j + 1;
    }
    Ok(())
}

/// Derives the identifier of a tag; fails where a subtag is empty.
pub fn tag_to_ident(tag: &str) -> (r: Result<String, String>)
    ensures
        r is Ok <==> no_empty_part(tag@),
        r matches Ok(id) ==> id@ == ident_of(tag@),
{
    let cs = chars_of(tag);
    let parts = split_parts(&cs);
    let ghost sp = split_dash(tag@);
    let mut ident = String::new();
    let mut i: usize = 0;
    while i < parts.len()
        invariant
            i <= parts@.len(),
            sp == split_dash(tag@),
            parts@.len() == sp.len(),
            forall|j: int| 0 <= j < parts@.len() ==> (#[trigger] parts@[j])@ == sp[j],
            forall|j: int| 0 <= j < i ==> (#[trigger] sp[j]).len() > 0,
            ident@ == ident_of_parts(sp.take(i as int)),
        decreases parts@.len() - i,
    {
        let part = &parts[i];
        assert(part@ == sp[i as int]);
        if part.len() == 0 {
            assert(sp[i as int].len() == 0);
            return Err(String::from_str("Tag contains an empty component."));
        }
        let ghost before = ident@;
        push_char(&mut ident, to_upper_exec(part[0]));
        let mut k: usize = 1;
        while k < part.len()
            invariant
                1 <= k <= part@.len(),
                ident@ == before + seq![to_upper(part@[0])] + part@.subrange(1, k as int).map_values(
                    |c: char| to_lower(c),
                ),
            decreases part@.len() - k,
        {
            push_char(&mut ident, to_lower_exec(part[k]));
            assert(part@.subrange(1, k as int + 1).map_values(|c: char| to_lower(c))
                == part@.subrange(1, k as int).map_values(|c: char| to_lower(c)).push(
                to_lower(part@[k as int]),
            ));
            k = k + 1;
        }
        assert(part@.subrange(1, part@.len() as int) == part@.drop_first());
        assert(sp.take(i as int + 1).drop_last() == sp.take(i as int));
        i = i + 1;
    }
    assert(sp.take(sp.len() as int) == sp);
    Ok(ident)
}

/// The base subtag of a tag: everything before the first hyphen.
pub fn base_subtag(tag: &str) -> (r: String)
    ensures
        r@ == base_of(tag@),
{
    let cs = chars_of(tag);
    let parts = split_parts(&cs);
    proof {
        lemma_split_nonempty(cs@);
    }
    let mut r = String::new();
    push_chars(&mut r, &parts[0]);
    r
}

/// Lexicographic order by code point, which is the byte order of the UTF-8 encodings.
pub open spec fn seq_lt(a: Seq<char>, b: Seq<char>) -> bool
    decreases a.len(),
{
    if a.len() == 0 {
        b.len() > 0
    } else if b.len() == 0 {
        false
    } else if a[0] != b[0] {
        a[0] < b[0]
    } else {
        seq_lt(a.drop_first(), b.drop_first())
    }
}

pub proof fn lemma_lt_irreflexive(a: Seq<char>)
    ensures
        !seq_lt(a, a),
    decreases a.len(),
{
    if a.len() > 0 {
        lemma_lt_irreflexive(a.drop_first());
    }
}

pub proof fn lemma_lt_total(a: Seq<char>, b: Seq<char>)
    ensures
        a == b || seq_lt(a, b) || seq_lt(b, a),
        !(seq_lt(a, b) && seq_lt(b, a)),
    decreases a.len(),
{
    if a.len() > 0 && b.len() > 0 {
        if a[0] == b[0] {
            lemma_lt_total(a.drop_first(), b.drop_first());
            if a.drop_first() == b.drop_first() {
                assert(a == seq![a[0]] + a.drop_first());
                assert(b == seq![b[0]] + b.drop_first());
            }
        }
    } else if a.len() == 0 && b.len() == 0 {
        assert(a == b);
    }
}

pub proof fn lemma_lt_transitive(a: Seq<char>, b: Seq<char>, c: Seq<char>)
    requires
        seq_lt(a, b),
        seq_lt(b, c),
    ensures
        seq_lt(a, c),
    decreases a.len(),
{
    if a.len() > 0 && b.len() > 0 && c.len() > 0 {
        if a[0] == b[0] && b[0] == c[0] {
            lemma_lt_transitive(a.drop_first(), b.drop_first(), c.drop_first());
        }
    }
}

/// Compares two strings in byte order.
pub fn str_less(a: &str, b: &str) -> (r: bool)
    ensures
        r == seq_lt(a@, b@),
{
    let x = chars_of(a);
    let y = chars_of(b);
    let mut i: usize = 0;
    assert(x@.skip(0) == x@ && y@.skip(0) == y@);
    while i < x.len() && i < y.len() && x[i] == y[i]
        invariant
            i <= x@.len(),
            i <= y@.len(),
            seq_lt(x@, y@) == seq_lt(x@.skip(i as int), y@.skip(i as int)),
        decreases x@.len() - i,
    {
        assert(x@.skip(i as int).drop_first() == x@.skip(i as int + 1));
        assert(y@.skip(i as int).drop_first() == y@.skip(i as int + 1));
        i = i + 1;
    }
    if i == x.len() {
        i < y.len()
    } else if i == y.len() {
        false
    } else {
        x[i] < y[i]
    }
}

/// A valid tag has no empty subtag.
pub proof fn lemma_valid_no_empty_part(tag: Seq<char>)
    requires
        valid_tag(tag),
    ensures
        no_empty_part(tag),
{
    let sp = split_dash(tag);
    assert forall|i: int| 0 <= i < sp.len() implies (#[trigger] sp[i]).len() > 0 by {
        if i >= first_variant(sp) {
            assert(is_variant(sp[i]));
        }
    }
}

/// Compares two strings for equality, character by character.
pub fn str_eq(a: &str, b: &str) -> (r: bool)
    ensures
        r == (a@ == b@),
{
    proof {
        lemma_lt_total(a@, b@);
        lemma_lt_irreflexive(a@);
    }
    !str_less(a, b) && !str_less(b, a)
}

pub open spec fn is_upper(c: char) -> bool {
    0x41 <= (c as u32) && (c as u32) <= 0x5a
}

proof fn lemma_case_keeps_alnum(c: char)
    requires
        is_alpha(c) || is_digit(c),
    ensures
        is_alpha(to_upper(c)) || is_digit(to_upper(c)),
        is_alpha(to_lower(c)) || is_digit(to_lower(c)),
        is_alpha(c) ==> is_upper(to_upper(c)),
{
}

proof fn lemma_ident_parts_alnum(parts: Seq<Seq<char>>)
    requires
        forall|i: int| 0 <= i < parts.len() ==> (#[trigger] parts[i]).len() > 0 && all_alnum(parts[i]),
    ensures
        all_alnum(ident_of_parts(parts)),
        parts.len() > 0 ==> ident_of_parts(parts).len() > 0 && ident_of_parts(parts)[0] == to_upper(
            parts[0][0],
        ),
    decreases parts.len(),
{
    if parts.len() > 0 {
        let init = parts.drop_last();
        assert forall|i: int| 0 <= i < init.len() implies (#[trigger] init[i]).len() > 0 && all_alnum(
            init[i],
        ) by {
            assert(init[i] == parts[i]);
        }
        lemma_ident_parts_alnum(init);
        let p = parts.last();
        assert(p == parts[parts.len() - 1]);
        let q = ident_part(p);
        assert forall|j: int| 0 <= j < q.len() implies is_alpha(#[trigger] q[j]) || is_digit(q[j]) by {
            if j == 0 {
                lemma_case_keeps_alnum(p[0]);
            } else {
                assert(q[j] == to_lower(p[j]));
                lemma_case_keeps_alnum(p[j]);
            }
        }
        let r = ident_of_parts(parts);
        assert(r == ident_of_parts(init) + q);
        assert forall|j: int| 0 <= j < r.len() implies is_alpha(#[trigger] r[j]) || is_digit(r[j]) by {
            if j < ident_of_parts(init).len() {
                assert(r[j] == ident_of_parts(init)[j]);
            } else {
                assert(r[j] == q[j - ident_of_parts(init).len()]);
            }
        }
        if init.len() > 0 {
            assert(init[0] == parts[0]);
        } else {
            assert(ident_of_parts(init).len() == 0);
        }
    }
}

/// The identifier of a valid tag starts with an upper-case ASCII letter and
/// holds only ASCII letters and digits.
pub proof fn lemma_ident_shape(tag: Seq<char>)
    requires
        valid_tag(tag),
    ensures
        ident_of(tag).len() > 0,
        is_upper(ident_of(tag)[0]),
        all_alnum(ident_of(tag)),
{
    let sp = split_dash(tag);
    assert forall|i: int| 0 <= i < sp.len() implies (#[trigger] sp[i]).len() > 0 && all_alnum(sp[i]) by {
        if i == 0 {
        } else if i >= first_variant(sp) {
            assert(is_variant(sp[i]));
        } else if i == 1 && is_script(sp[1]) {
        } else {
            assert(is_region(sp[i]));
        }
    }
    lemma_ident_parts_alnum(sp);
    assert(is_alpha(sp[0][0]));
    lemma_case_keeps_alnum(sp[0][0]);
}

} // verus!
