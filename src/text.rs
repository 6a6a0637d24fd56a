//! Character-level text analysis: naming conventions of identifiers and the
//! suppression directive in source text.

use vstd::prelude::*;

verus! {

/// Whether `c` has the Unicode `Uppercase` property.
pub uninterp spec fn uppercase_char(c: char) -> bool;

/// Whether `c` has the Unicode `Lowercase` property.
pub uninterp spec fn lowercase_char(c: char) -> bool;

/// Whether `c` is in one of the Unicode general categories for numbers.
pub uninterp spec fn numeric_char(c: char) -> bool;

/// Whether `c` has the Unicode `White_Space` property.
pub uninterp spec fn white_space_char(c: char) -> bool;

/// Relies on `char::is_uppercase`: the Unicode `Uppercase` property of `c`.
#[verifier::external_body]
fn is_uppercase(c: char) -> (r: bool)
    ensures
        r == uppercase_char(c),
{
    c.is_uppercase()
}

/// Relies on `char::is_lowercase`: the Unicode `Lowercase` property of `c`.
#[verifier::external_body]
fn is_lowercase(c: char) -> (r: bool)
    ensures
        r == lowercase_char(c),
{
    c.is_lowercase()
}

/// Relies on `char::is_numeric`: whether `c` is a Unicode number.
#[verifier::external_body]
fn is_numeric(c: char) -> (r: bool)
    ensures
        r == numeric_char(c),
{
    c.is_numeric()
}

/// Relies on `char::is_whitespace`: the Unicode `White_Space` property of `c`.
#[verifier::external_body]
fn is_whitespace(c: char) -> (r: bool)
    ensures
        r == white_space_char(c),
{
    c.is_whitespace()
}

/// Upper camel case: the first character is uppercase.
pub open spec fn pascal_case(name: Seq<char>) -> bool {
    name.len() > 0 && uppercase_char(name[0])
}

/// Lower camel case: the first character is lowercase.
pub open spec fn camel_case(name: Seq<char>) -> bool {
    name.len() > 0 && lowercase_char(name[0])
}

/// Constant case: every character is uppercase, an underscore or a digit.
pub open spec fn constant_case(name: Seq<char>) -> bool {
    forall|i: int|
        0 <= i < name.len() ==> (uppercase_char(#[trigger] name[i]) || name[i] == '_'
            || numeric_char(name[i]))
}

/// Returns the characters of `s`.
pub fn chars_of(s: &str) -> (r: Vec<char>)
    ensures
        r@ == s@,
{
    let mut r: Vec<char> = Vec::new();
    for c in it: s.chars()
        invariant
            r@ == it.seq().subrange(0, it.index() as int),
    {
        r.push(c);
    }
    r
}

/// Whether `name` is written in upper camel case.
pub fn is_pascal_case(name: &str) -> (r: bool)
    ensures
        r == pascal_case(name@),
{
    name.unicode_len() > 0 && is_uppercase(name.get_char(0))
}

/// Whether `name` is written in lower camel case.
pub fn is_camel_case(name: &str) -> (r: bool)
    ensures
        r == camel_case(name@),
{
    name.unicode_len() > 0 && is_lowercase(name.get_char(0))
}

/// Whether `name` is written in constant case.
pub fn is_constant_case(name: &str) -> (r: bool)
    ensures
        r == constant_case(name@),
{
    let cs = chars_of(name);
    let mut i: usize = 0;
    while i < cs.len()
        invariant
            cs@ == name@,
            i <= cs.len(),
            forall|j: int|
                0 <= j < i ==> (uppercase_char(#[trigger] cs@[j]) || cs@[j] == '_'
                    || numeric_char(cs@[j])),
        decreases cs.len() - i,
    {
        let c = cs[i];
        if !(is_uppercase(c) || c == '_' || is_numeric(c)) {
            return false;
        }
        i = i + 1;
    }
    true
}


/// The number of bytes that the UTF-8 encoding of `c` takes.
pub open spec fn utf8_width(c: char) -> int {
    if (c as u32) < 0x80 {
        1
    } else if (c as u32) < 0x800 {
        2
    } else if (c as u32) < 0x10000 {
        3
    } else {
        4
    }
}

/// The index of the line on which byte offset `p` of the UTF-8 encoding of
/// `text` lies: the number of line breaks that start before `p`.
pub open spec fn line_at(text: Seq<char>, p: int) -> nat
    decreases text.len(),
{
    if text.len() == 0 || p <= 0 {
        0
    } else {
        (if text[0] == '\n' { 1nat } else { 0nat }) + line_at(text.drop_first(), p - utf8_width(text[0]))
    }
}

/// Line `k` of `text` (counted from zero): the characters between the `k`-th
/// line break and the next one; empty past the last line.
pub open spec fn nth_line(text: Seq<char>, k: nat) -> Seq<char>
    decreases text.len(),
{
    if text.len() == 0 {
        Seq::empty()
    } else if text[0] == '\n' {
        if k == 0 {
            Seq::empty()
        } else {
            nth_line(text.drop_first(), (k - 1) as nat)
        }
    } else if k == 0 {
        seq![text[0]] + nth_line(text.drop_first(), 0)
    } else {
        nth_line(text.drop_first(), k)
    }
}

/// `s` without its leading white space.
pub open spec fn trim_start(s: Seq<char>) -> Seq<char>
    decreases s.len(),
{
    if s.len() > 0 && white_space_char(s[0]) {
        trim_start(s.drop_first())
    } else {
        s
    }
}

/// `s` without its trailing white space.
pub open spec fn trim_end(s: Seq<char>) -> Seq<char>
    decreases s.len(),
{
    if s.len() > 0 && white_space_char(s.last()) {
        trim_end(s.drop_last())
    } else {
        s
    }
}

/// `s` without leading and trailing white space.
pub open spec fn trimmed(s: Seq<char>) -> Seq<char> {
    trim_end(trim_start(s))
}

/// Whether `pat` occurs in `s` as a contiguous run.
pub open spec fn has_infix(s: Seq<char>, pat: Seq<char>) -> bool {
    exists|i: int| 0 <= i && i + pat.len() <= s.len() && #[trigger] s.subrange(i, i + pat.len()) == pat
}

/// The comment that exempts a definition from being reported.
pub open spec fn ignore_marker() -> Seq<char> {
    "// @ts-unused-ignore"@
}

/// Whether the declaration starting at byte offset `pos` of `text` carries the
/// suppression directive: the line before it, trimmed, is exactly the marker,
/// or its own line contains the marker.
pub open spec fn ignore_marked(text: Seq<char>, pos: int) -> bool {
    let k = line_at(text, pos);
    (k > 0 && trimmed(nth_line(text, (k - 1) as nat)) == ignore_marker())
        || has_infix(nth_line(text, k), ignore_marker())
}

/// Returns the number of bytes that the UTF-8 encoding of `c` takes.
fn utf8_width_of(c: char) -> (r: usize)
    ensures
        r == utf8_width(c),
{
    let u = c as u32;
    if u < 0x80 {
        1
    } else if u < 0x800 {
        2
    } else if u < 0x10000 {
        3
    } else {
        4
    }
}

/// Returns the index of the line on which byte offset `pos` lies.
pub fn line_index(text: &Vec<char>, pos: usize) -> (r: usize)
    ensures
        r == line_at(text@, pos as int),
        r <= text@.len(),
{
    let mut count: usize = 0;
    let mut i: usize = 0;
    let mut before: usize = 0;
    assert(text@.skip(0) =~= text@);
    while i < text.len() && before < pos
        invariant
            i <= text.len(),
            before <= pos,
            count <= i,
            count + line_at(text@.skip(i as int), pos - before) == line_at(text@, pos as int),
        decreases text.len() - i,
    {
        let c = text[i];
        assert(text@.skip(i as int).drop_first() =~= text@.skip(i + 1));
        if c == '\n' {
            count = count + 1;
        }
        let w = utf8_width_of(c);
        assert(text@.skip(i as int)[0] == c);
        assert(line_at(text@.skip(i as int), pos - before) == (if c == '\n' { 1nat } else { 0nat })
            + line_at(text@.skip(i + 1), pos - before - w));
        i = i + 1;
        if pos - before <= w {
            before = pos;
        } else {
            before = before + w;
        }
    }
    count
}

/// Returns line `k` of `text`, without its line break.
pub fn line_of(text: &Vec<char>, k: usize) -> (r: Vec<char>)
    ensures
        r@ == nth_line(text@, k as nat),
{
    let mut r: Vec<char> = Vec::new();
    let mut skip: usize = k;
    let mut i: usize = 0;
    assert(text@.skip(0) =~= text@);
    assert(r@ + nth_line(text@, k as nat) =~= nth_line(text@, k as nat));
    while i < text.len()
        invariant
            i <= text.len(),
            skip > 0 ==> r@.len() == 0,
            r@ + nth_line(text@.skip(i as int), skip as nat) == nth_line(text@, k as nat),
        decreases text.len() - i,
    {
        let c = text[i];
        assert(text@.skip(i as int).drop_first() =~= text@.skip(i + 1));
        if c == '\n' {
            if skip == 0 {
                assert(r@ + nth_line(text@.skip(i as int), 0) =~= r@);
                return r;
            }
            skip = skip - 1;
        } else if skip == 0 {
            assert(r@ + nth_line(text@.skip(i as int), 0) =~= r@.push(c) + nth_line(
                text@.skip(i + 1),
                0,
            ));
            r.push(c);
        }
        i = i + 1;
    }
    assert(r@ + nth_line(text@.skip(i as int), skip as nat) =~= r@);
    r
}


/// Returns `s` without leading and trailing white space.
pub fn trim_chars(s: &Vec<char>) -> (r: Vec<char>)
    ensures
        r@ == trimmed(s@),
{
    let mut lo: usize = 0;
    assert(s@.skip(0) =~= s@);
    while lo < s.len() && is_whitespace(s[lo])
        invariant
            lo <= s.len(),
            trim_start(s@) == trim_start(s@.skip(lo as int)),
        decreases s.len() - lo,
    {
        assert(s@.skip(lo as int).drop_first() =~= s@.skip(lo + 1));
        lo = lo + 1;
    }
    let ghost rest = s@.skip(lo as int);
    assert(trim_start(s@) == rest);
    let mut hi: usize = s.len();
    assert(rest =~= s@.subrange(lo as int, hi as int));
    while hi > lo && is_whitespace(s[hi - 1])
        invariant
            lo <= hi <= s.len(),
            trim_end(rest) == trim_end(s@.subrange(lo as int, hi as int)),
        decreases hi - lo,
    {
        assert(s@.subrange(lo as int, hi as int).drop_last() =~= s@.subrange(lo as int, hi - 1));
        hi = hi - 1;
    }
    sub_chars(s, lo, hi)
}

/// Returns `v[lo..hi]`.
pub fn sub_chars(v: &Vec<char>, lo: usize, hi: usize) -> (r: Vec<char>)
    requires
        lo <= hi <= v.len(),
    ensures
        r@ == v@.subrange(lo as int, hi as int),
{
    let mut r: Vec<char> = Vec::new();
    let mut i: usize = lo;
    while i < hi
        invariant
            lo <= i <= hi <= v.len(),
            r@ == v@.subrange(lo as int, i as int),
        decreases hi - i,
    {
        r.push(v[i]);
        i = i + 1;
        assert(r@ =~= v@.subrange(lo as int, i as int));
    }
    r
}

/// Whether `a` and `b` hold the same characters.
pub fn same_chars(a: &Vec<char>, b: &Vec<char>) -> (r: bool)
    ensures
        r == (a@ == b@),
{
    if a.len() != b.len() {
        return false;
    }
    assert(a@.subrange(0, b@.len() as int) =~= a@);
    occurs_at(a, b, 0)
}

/// Whether `pat` occurs in `s` at index `at`.
pub fn occurs_at(s: &Vec<char>, pat: &Vec<char>, at: usize) -> (r: bool)
    requires
        at + pat.len() <= s.len(),
    ensures
        r == (s@.subrange(at as int, at + pat.len()) == pat@),
{
    let mut j: usize = 0;
    while j < pat.len()
        invariant
            j <= pat.len(),
            at + pat.len() <= s.len(),
            forall|m: int| 0 <= m < j ==> s@[at + m] == pat@[m],
        decreases pat.len() - j,
    {
        if s[at + j] != pat[j] {
            assert(s@.subrange(at as int, at + pat.len())[j as int] != pat@[j as int]);
            return false;
        }
        j = j + 1;
    }
    assert(s@.subrange(at as int, at + pat.len()) =~= pat@);
    true
}

/// Whether `pat` occurs in `s` as a contiguous run.
pub fn contains_chars(s: &Vec<char>, pat: &Vec<char>) -> (r: bool)
    ensures
        r == has_infix(s@, pat@),
{
    if pat.len() > s.len() {
        return false;
    }
    let last = s.len() - pat.len();
    let mut i: usize = 0;
    loop
        invariant
            i <= last,
            last + pat.len() == s.len(),
            forall|m: int| 0 <= m < i ==> #[trigger] s@.subrange(m, m + pat.len()) != pat@,
        decreases last - i,
    {
        if occurs_at(s, pat, i) {
            return true;
        }
        if i == last {
            return false;
        }
        i = i + 1;
    }
}

/// Whether the declaration starting at byte offset `pos` of `text` carries the
/// suppression directive, on the line before it or on its own line.
pub fn has_ignore_comment(text: &Vec<char>, pos: usize) -> (r: bool)
    ensures
        r == ignore_marked(text@, pos as int),
{
    let marker = chars_of("// @ts-unused-ignore");
    let k = line_index(text, pos);
    if k > 0 {
        let previous = line_of(text, k - 1);
        let t = trim_chars(&previous);
        if same_chars(&t, &marker) {
            return true;
        }
    }
    let current = line_of(text, k);
    contains_chars(&current, &marker)
}

} // verus!
