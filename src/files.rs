//! File selection: which paths are source files, and which of them the
//! exclusion patterns keep out of the definition scan.

use vstd::prelude::*;

use crate::text::{chars_of, contains_chars, has_infix, occurs_at, same_chars, sub_chars};
use crate::types::string_views;

verus! {

/// The number of `*` characters in `p`.
pub open spec fn star_count(p: Seq<char>) -> nat
    decreases p.len(),
{
    if p.len() == 0 {
        0
    } else {
        star_count(p.drop_last()) + if p.last() == '*' { 1nat } else { 0nat }
    }
}

/// The index of the first `*` in `p`, or its length when it has none.
pub open spec fn star_index(p: Seq<char>) -> nat
    decreases p.len(),
{
    if p.len() == 0 {
        0
    } else if p[0] == '*' {
        0
    } else {
        1 + star_index(p.drop_first())
    }
}

/// Whether `path` matches the exclusion pattern `pat`: a pattern with exactly
/// one `*` is a prefix and a suffix; one that ends in `/**` is a prefix; any
/// other pattern is a substring.
pub open spec fn matches_pattern(path: Seq<char>, pat: Seq<char>) -> bool {
    if star_count(pat) == 1 {
        let k = star_index(pat) as int;
        path.len() >= k && path.subrange(0, k) == pat.subrange(0, k)
            && path.len() >= pat.len() - k - 1
            && path.subrange(path.len() - (pat.len() - k - 1), path.len() as int)
            == pat.subrange(k + 1, pat.len() as int)
    } else if pat.len() >= 3 && pat.subrange(pat.len() - 3, pat.len() as int) == "/**"@ {
        path.len() >= pat.len() - 3 && path.subrange(0, pat.len() - 3) == pat.subrange(
            0,
            pat.len() - 3,
        )
    } else {
        has_infix(path, pat)
    }
}

/// Whether some pattern of `patterns` matches `path`.
pub open spec fn excluded_by(path: Seq<char>, patterns: Seq<Seq<char>>) -> bool {
    exists|i: int| 0 <= i < patterns.len() && matches_pattern(path, #[trigger] patterns[i])
}

/// The index of the last `c` in `s`, or -1 when it has none.
pub open spec fn last_index(s: Seq<char>, c: char) -> int
    decreases s.len(),
{
    if s.len() == 0 {
        -1
    } else if s.last() == c {
        s.len() - 1
    } else {
        last_index(s.drop_last(), c)
    }
}

/// The extension of the file that `path` names: what follows the last `.` of
/// its final component, when that `.` is not the component's first character.
pub open spec fn extension(path: Seq<char>) -> Option<Seq<char>> {
    let name = path.skip(last_index(path, '/') + 1);
    let k = last_index(name, '.');
    if k > 0 {
        Some(name.skip(k + 1))
    } else {
        None
    }
}

/// Whether `path` names a TypeScript source file (`.ts` or `.tsx`).
pub open spec fn is_source_path(path: Seq<char>) -> bool {
    extension(path) == Some("ts"@) || extension(path) == Some("tsx"@)
}

/// The paths of `paths` that are source files, in order; with `exclude`, only
/// those that no pattern of `patterns` matches.
pub open spec fn selected(paths: Seq<Seq<char>>, patterns: Seq<Seq<char>>, exclude: bool) -> Seq<
    Seq<char>,
>
    decreases paths.len(),
{
    if paths.len() == 0 {
        Seq::empty()
    } else {
        let rest = selected(paths.drop_last(), patterns, exclude);
        let p = paths.last();
        if is_source_path(p) && !(exclude && excluded_by(p, patterns)) {
            rest.push(p)
        } else {
            rest
        }
    }
}

/// Returns one past the index of the last `c` in `s`: 0 when it has none.
fn after_last(s: &Vec<char>, c: char) -> (r: usize)
    ensures
        r == last_index(s@, c) + 1,
        r <= s@.len(),
{
    let mut i: usize = s.len();
    assert(s@.subrange(0, i as int) =~= s@);
    while i > 0 && s[i - 1] != c
        invariant
            i <= s.len(),
            last_index(s@, c) == last_index(s@.subrange(0, i as int), c),
        decreases i,
    {
        assert(s@.subrange(0, i as int).drop_last() =~= s@.subrange(0, i - 1));
        i = i - 1;
    }
    i
}

/// Returns the number of `*` characters in `p` and the index of the first.
fn find_stars(p: &Vec<char>) -> (r: (usize, usize))
    ensures
        r.0 == star_count(p@),
        r.1 == star_index(p@),
{
    let mut count: usize = 0;
    let mut first: usize = p.len();
    let mut i: usize = 0;
    assert(p@.skip(0) =~= p@);
    while i < p.len()
        invariant
            i <= p.len(),
            count == star_count(p@.subrange(0, i as int)),
            count <= i,
            count == 0 ==> first == p.len() && star_index(p@) == i + star_index(p@.skip(i as int)),
            count > 0 ==> first == star_index(p@),
        decreases p.len() - i,
    {
        assert(p@.subrange(0, i + 1).drop_last() =~= p@.subrange(0, i as int));
        assert(p@.skip(i as int).drop_first() =~= p@.skip(i + 1));
        if p[i] == '*' {
            if count == 0 {
                first = i;
            }
            count = count + 1;
        }
        i = i + 1;
    }
    assert(p@.subrange(0, i as int) =~= p@);
    if count == 0 {
        first = p.len();
    }
    (count, first)
}

/// Whether `s` starts with `pre`.
fn starts_with(s: &Vec<char>, pre: &Vec<char>) -> (r: bool)
    ensures
        r == (s@.len() >= pre@.len() && s@.subrange(0, pre@.len() as int) == pre@),
{
    pre.len() <= s.len() && occurs_at(s, pre, 0)
}

/// Whether `s` ends with `suf`.
fn ends_with(s: &Vec<char>, suf: &Vec<char>) -> (r: bool)
    ensures
        r == (s@.len() >= suf@.len() && s@.subrange(s@.len() - suf@.len(), s@.len() as int)
            == suf@),
{
    suf.len() <= s.len() && occurs_at(s, suf, s.len() - suf.len())
}

/// Whether `path` matches the exclusion pattern `pat`.
fn pattern_matches(path: &Vec<char>, pat: &Vec<char>) -> (r: bool)
    ensures
        r == matches_pattern(path@, pat@),
{
    let (stars, k) = find_stars(pat);
    if stars == 1 {
        proof {
            lemma_star_index_bound(pat@);
        }
        let prefix = sub_chars(pat, 0, k);
        let suffix = sub_chars(pat, k + 1, pat.len());
        return starts_with(path, &prefix) && ends_with(path, &suffix);
    }
    let tail = chars_of("/**");
    if ends_with(pat, &tail) {
        proof {
            reveal_strlit("/**");
        }
        let prefix = sub_chars(pat, 0, pat.len() - 3);
        return starts_with(path, &prefix);
    }
    contains_chars(path, pat)
}

/// A pattern with a `*` has its first `*` inside it.
proof fn lemma_star_index_bound(p: Seq<char>)
    requires
        star_count(p) > 0,
    ensures
        star_index(p) < p.len(),
        p[star_index(p) as int] == '*',
    decreases p.len(),
{
    if p[0] != '*' {
        lemma_star_count_first(p);
        lemma_star_index_bound(p.drop_first());
    }
}

/// Counting stars from the front agrees with counting from the back.
proof fn lemma_star_count_first(p: Seq<char>)
    requires
        p.len() > 0,
    ensures
        star_count(p) == star_count(p.drop_first()) + if p[0] == '*' { 1nat } else { 0nat },
    decreases p.len(),
{
    if p.len() > 1 {
        lemma_star_count_first(p.drop_last());
        assert(p.drop_last().drop_first() =~= p.drop_first().drop_last());
        assert(p.drop_first().last() == p.last());
        assert(p.drop_last()[0] == p[0]);
        assert(star_count(p.drop_first()) == star_count(p.drop_first().drop_last()) + if p.last()
            == '*' { 1nat } else { 0nat });
    } else {
        assert(p.drop_first().len() == 0);
        assert(p.drop_last().len() == 0);
        assert(star_count(p.drop_first()) == 0);
        assert(star_count(p.drop_last()) == 0);
        assert(p.last() == p[0]);
    }
}

/// Whether some pattern of `patterns` matches `path`.
pub fn should_exclude(path: &str, patterns: &Vec<String>) -> (r: bool)
    ensures
        r == excluded_by(path@, string_views(patterns@)),
{
    let p = chars_of(path);
    let mut i: usize = 0;
    while i < patterns.len()
        invariant
            i <= patterns.len(),
            p@ == path@,
            forall|j: int| 0 <= j < i ==> !matches_pattern(path@, #[trigger] patterns@[j]@),
        decreases patterns.len() - i,
    {
        let pat = chars_of(patterns[i].as_str());
        if pattern_matches(&p, &pat) {
            assert(string_views(patterns@)[i as int] == patterns@[i as int]@);
            return true;
        }
        i = i + 1;
    }
    assert(!excluded_by(path@, string_views(patterns@))) by {
        if excluded_by(path@, string_views(patterns@)) {
            let j = choose|j: int|
                0 <= j < patterns@.len() && matches_pattern(
                    path@,
                    #[trigger] string_views(patterns@)[j],
                );
            assert(string_views(patterns@)[j] == patterns@[j]@);
        }
    }
    false
}

/// Whether `path` names a TypeScript source file (`.ts` or `.tsx`).
pub fn is_source_file(path: &str) -> (r: bool)
    ensures
        r == is_source_path(path@),
{
    let p = chars_of(path);
    let start = after_last(&p, '/');
    let name = sub_chars(&p, start, p.len());
    assert(name@ =~= path@.skip(last_index(path@, '/') + 1));
    let d = after_last(&name, '.');
    if d > 1 {
        let ext = sub_chars(&name, d, name.len());
        assert(ext@ =~= name@.skip(d as int));
        let ts = chars_of("ts");
        let tsx = chars_of("tsx");
        same_chars(&ext, &ts) || same_chars(&ext, &tsx)
    } else {
        false
    }
}

/// Returns the paths of `paths` that are source files, in order; with
/// `exclude`, only those that no pattern of `patterns` matches.
pub fn select_files(paths: &Vec<String>, patterns: &Vec<String>, exclude: bool) -> (r: Vec<String>)
    ensures
        string_views(r@) == selected(string_views(paths@), string_views(patterns@), exclude),
{
    let ghost all = string_views(paths@);
    let mut r: Vec<String> = Vec::new();
    let mut i: usize = 0;
    assert(string_views(r@) =~= selected(all.subrange(0, 0), string_views(patterns@), exclude));
    while i < paths.len()
        invariant
            i <= paths.len(),
            all == string_views(paths@),
            string_views(r@) == selected(all.subrange(0, i as int), string_views(patterns@), exclude),
        decreases paths.len() - i,
    {
        let p = &paths[i];
        assert(all.subrange(0, i + 1).drop_last() =~= all.subrange(0, i as int));
        assert(all.subrange(0, i + 1).last() == p@);
        if is_source_file(p.as_str()) && !(exclude && should_exclude(p.as_str(), patterns)) {
            r.push(p.clone());
        }
        i = i + 1;
        assert(string_views(r@) =~= selected(
            all.subrange(0, i as int),
            string_views(patterns@),
            exclude,
        ));
    }
    assert(all.subrange(0, i as int) =~= all);
    r
}

} // verus!
