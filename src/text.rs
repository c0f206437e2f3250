//! Character classes and the display-string normaliser.

use vstd::prelude::*;
use vstd::string::*;

verus! {

/// Unicode general category Cc: U+0000..U+001F and U+007F..U+009F.
pub open spec fn is_control_spec(c: char) -> bool {
    (c as u32) <= 0x1f || (0x7f <= (c as u32) && (c as u32) <= 0x9f)
}

/// The Unicode White_Space property.
pub open spec fn is_whitespace_spec(c: char) -> bool {
    let u = c as u32;
    (0x09 <= u && u <= 0x0d) || u == 0x20 || u == 0x85 || u == 0xa0 || u == 0x1680 || (0x2000 <= u
        && u <= 0x200a) || u == 0x2028 || u == 0x2029 || u == 0x202f || u == 0x205f || u == 0x3000
}

pub fn is_control(c: char) -> (r: bool)
    ensures
        r == is_control_spec(c),
{
    let u = c as u32;
    u <= 0x1f || (0x7f <= u && u <= 0x9f)
}

pub fn is_whitespace(c: char) -> (r: bool)
    ensures
        r == is_whitespace_spec(c),
{
    let u = c as u32;
    (0x09 <= u && u <= 0x0d) || u == 0x20 || u == 0x85 || u == 0xa0 || u == 0x1680 || (0x2000 <= u
        && u <= 0x200a) || u == 0x2028 || u == 0x2029 || u == 0x202f || u == 0x205f || u == 0x3000
}

/// Characters that the normaliser drops: control characters and the soft hyphen.
pub open spec fn is_dropped(c: char) -> bool {
    c == '\u{ad}' || is_control_spec(c)
}

/// Drops the dropped characters and turns each run of whitespace into one space,
/// reading left to right.
pub open spec fn squash(s: Seq<char>) -> Seq<char>
    decreases s.len(),
{
    if s.len() == 0 {
        Seq::empty()
    } else {
        let p = squash(s.drop_last());
        let c = s.last();
        if is_dropped(c) {
            p
        } else if is_whitespace_spec(c) {
            if p.len() > 0 && p.last() == ' ' {
                p
            } else {
                p.push(' ')
            }
        } else {
            p.push(c)
        }
    }
}

pub open spec fn trim_start(s: Seq<char>) -> Seq<char>
    decreases s.len(),
{
    if s.len() > 0 && s[0] == ' ' {
        trim_start(s.drop_first())
    } else {
        s
    }
}

pub open spec fn trim_end(s: Seq<char>) -> Seq<char>
    decreases s.len(),
{
    if s.len() > 0 && s.last() == ' ' {
        trim_end(s.drop_last())
    } else {
        s
    }
}

/// The normal form of a display string.
pub open spec fn normalise_spec(s: Seq<char>) -> Seq<char> {
    trim_end(trim_start(squash(s)))
}

/// No dropped character, no whitespace but the plain space, no two spaces in a row.
pub open spec fn is_clean(s: Seq<char>) -> bool {
    &&& forall|i: int| 0 <= i < s.len() ==> !is_dropped(#[trigger] s[i])
    &&& forall|i: int| 0 <= i < s.len() && is_whitespace_spec(#[trigger] s[i]) ==> s[i] == ' '
    &&& forall|i: int| 0 <= i < s.len() - 1 ==> !(#[trigger] s[i] == ' ' && s[i + 1] == ' ')
}

/// A clean string without leading or trailing space.
pub open spec fn is_normal(s: Seq<char>) -> bool {
    &&& is_clean(s)
    &&& s.len() > 0 ==> s[0] != ' ' && s.last() != ' '
}

proof fn lemma_squash_clean(s: Seq<char>)
    ensures
        is_clean(squash(s)),
    decreases s.len(),
{
    if s.len() > 0 {
        lemma_squash_clean(s.drop_last());
        let p = squash(s.drop_last());
        assert(is_clean(p));
    }
}

proof fn lemma_squash_of_clean(s: Seq<char>)
    requires
        is_clean(s),
    ensures
        squash(s) == s,
    decreases s.len(),
{
    if s.len() > 0 {
        let d = s.drop_last();
        assert(is_clean(d)) by {
            assert forall|i: int| 0 <= i < d.len() - 1 implies !(#[trigger] d[i] == ' ' && d[i + 1]
                == ' ') by {
                assert(s[i] == d[i] && s[i + 1] == d[i + 1]);
            }
        }
        lemma_squash_of_clean(d);
        assert(s.len() - 1 >= 0);
        let c = s.last();
        assert(!is_dropped(s[s.len() - 1]));
        if is_whitespace_spec(c) {
            assert(s[s.len() - 1] == ' ');
            if d.len() > 0 {
                assert(!(s[s.len() - 2] == ' ' && s[s.len() - 1] == ' '));
            }
        }
        assert(d.push(c) =~= s);
    }
}

proof fn lemma_trim_start(s: Seq<char>)
    requires
        is_clean(s),
    ensures
        is_clean(trim_start(s)),
        trim_start(s).len() > 0 ==> trim_start(s)[0] != ' ',
        trim_start(s).len() > 0 && s.len() > 0 ==> trim_start(s).last() == s.last(),
    decreases s.len(),
{
    if s.len() > 0 && s[0] == ' ' {
        let t = s.drop_first();
        assert(is_clean(t)) by {
            assert forall|i: int| 0 <= i < t.len() - 1 implies !(#[trigger] t[i] == ' ' && t[i + 1]
                == ' ') by {
                assert(s[i + 1] == t[i] && s[i + 2] == t[i + 1]);
            }
            assert forall|i: int| 0 <= i < t.len() implies !is_dropped(#[trigger] t[i]) by {
                assert(s[i + 1] == t[i]);
            }
            assert forall|i: int| 0 <= i < t.len() && is_whitespace_spec(#[trigger] t[i]) implies t[i]
                == ' ' by {
                assert(s[i + 1] == t[i]);
            }
        }
        lemma_trim_start(t);
    }
}

proof fn lemma_trim_end(s: Seq<char>)
    requires
        is_clean(s),
        s.len() > 0 ==> s[0] != ' ',
    ensures
        is_normal(trim_end(s)),
    decreases s.len(),
{
    if s.len() > 0 && s.last() == ' ' {
        let t = s.drop_last();
        assert(is_clean(t)) by {
            assert forall|i: int| 0 <= i < t.len() - 1 implies !(#[trigger] t[i] == ' ' && t[i + 1]
                == ' ') by {
                assert(s[i] == t[i] && s[i + 1] == t[i + 1]);
            }
        }
        if t.len() > 0 {
            assert(t[0] == s[0]);
        }
        lemma_trim_end(t);
    }
}

/// The normal form is clean and carries no leading or trailing space.
pub proof fn lemma_normalise_is_normal(s: Seq<char>)
    ensures
        is_normal(normalise_spec(s)),
{
    lemma_squash_clean(s);
    lemma_trim_start(squash(s));
    lemma_trim_end(trim_start(squash(s)));
}

/// Normalising is idempotent, and its output holds no soft hyphen, no control
/// character and no two spaces in a row.
pub proof fn lemma_normalise_idempotent(s: Seq<char>)
    ensures
        normalise_spec(normalise_spec(s)) == normalise_spec(s),
        forall|i: int|
            0 <= i < normalise_spec(s).len() ==> #[trigger] normalise_spec(s)[i] != '\u{ad}'
                && !is_control_spec(normalise_spec(s)[i]),
        forall|i: int|
            0 <= i < normalise_spec(s).len() - 1 ==> !(#[trigger] normalise_spec(s)[i] == ' '
                && normalise_spec(s)[i + 1] == ' '),
{
    let n = normalise_spec(s);
    lemma_normalise_is_normal(s);
    lemma_squash_of_clean(n);
    assert(trim_start(n) == n);
    assert(trim_end(n) == n);
    assert forall|i: int| 0 <= i < n.len() implies #[trigger] n[i] != '\u{ad}' && !is_control_spec(
        n[i]) by {
        assert(!is_dropped(n[i]));
    }
}

/// Normalises a display string: drops control characters and soft hyphens, turns
/// each run of whitespace into one space, and trims spaces at both ends.
pub fn normalize_whitespace(input: &str) -> (r: String)
    ensures
        r@ == normalise_spec(input@),
{
    let n = input.unicode_len();
    let mut out: Vec<char> = Vec::new();
    let mut last_space = false;
    let mut i: usize = 0;
    while i < n
        invariant
            n == input@.len(),
            i <= n,
            out@ == squash(input@.take(i as int)),
            last_space == (out@.len() > 0 && out@.last() == ' '),
        decreases n - i,
    {
        let ch = input.get_char(i);
        assert(input@.take(i as int + 1).drop_last() == input@.take(i as int));
        if ch == '\u{ad}' || is_control(ch) {
        } else if is_whitespace(ch) {
            if !last_space {
                out.push(' ');
            }
            last_space = true;
        } else {
            out.push(ch);
            last_space = false;
        }
        i = i + 1;
    }
    assert(input@.take(n as int) == input@);
    let len = out.len();
    let mut lo: usize = 0;
    assert(out@.subrange(0, len as int) == out@);
    while lo < len && out[lo] == ' '
        invariant
            len == out@.len(),
            lo <= len,
            trim_start(out@) == trim_start(out@.subrange(lo as int, len as int)),
        decreases len - lo,
    {
        assert(out@.subrange(lo as int, len as int).drop_first() == out@.subrange(
            lo as int + 1,
            len as int,
        ));
        lo = lo + 1;
    }
    let ghost front = out@.subrange(lo as int, len as int);
    assert(trim_start(front) == front);
    let mut hi: usize = len;
    while hi > lo && out[hi - 1] == ' '
        invariant
            len == out@.len(),
            lo <= hi <= len,
            trim_end(front) == trim_end(out@.subrange(lo as int, hi as int)),
        decreases hi,
    {
        assert(out@.subrange(lo as int, hi as int).drop_last() == out@.subrange(
            lo as int,
            hi as int - 1,
        ));
        hi = hi - 1;
    }
    assert(trim_end(out@.subrange(lo as int, hi as int)) == out@.subrange(lo as int, hi as int));
    let mut r = String::new();
    let mut k: usize = lo;
    while k < hi
        invariant
            lo <= k <= hi <= len,
            len == out@.len(),
            r@ == out@.subrange(lo as int, k as int),
        decreases hi - k,
    {
        push_char(&mut r, out[k]);
        assert(out@.subrange(lo as int, k as int + 1) == out@.subrange(lo as int, k as int).push(
            out@[k as int],
        ));
        k = k + 1;
    }
    r
}

/// Relies on String::push: appends one character.
#[verifier::external_body]
pub(crate) fn push_char(s: &mut String, c: char)
    ensures
        final(s)@ == old(s)@.push(c),
{
    s.push(c);
}

} // verus!
