//! Configuration logic: merging a custom configuration over a loaded one,
//! choosing the configuration file, and the search roots of a monorepo.

use vstd::prelude::*;
use vstd::utf8::{encode_utf8, encode_utf8_decode_utf8};

use crate::text::{chars_of, occurs_at};
use crate::types::{
    default_exclude_pattern_list, default_exclude_patterns, string_views, Config, DetectorError,
};

verus! {

/// Lexicographic order of byte strings.
pub open spec fn bytes_le(a: Seq<u8>, b: Seq<u8>) -> bool
    decreases a.len(),
{
    if a.len() == 0 {
        true
    } else if b.len() == 0 {
        false
    } else if a[0] != b[0] {
        a[0] < b[0]
    } else {
        bytes_le(a.drop_first(), b.drop_first())
    }
}

/// The order of `String`: lexicographic order of the UTF-8 encodings.
pub open spec fn text_le(a: Seq<char>, b: Seq<char>) -> bool {
    bytes_le(encode_utf8(a), encode_utf8(b))
}

/// `v` is in ascending order.
pub open spec fn sorted_texts(v: Seq<Seq<char>>) -> bool {
    forall|i: int, j: int| 0 <= i < j < v.len() ==> text_le(#[trigger] v[i], #[trigger] v[j])
}

proof fn lemma_bytes_le_reflexive(a: Seq<u8>)
    ensures
        bytes_le(a, a),
    decreases a.len(),
{
    if a.len() > 0 {
        lemma_bytes_le_reflexive(a.drop_first());
    }
}

proof fn lemma_bytes_le_antisymmetric(a: Seq<u8>, b: Seq<u8>)
    requires
        bytes_le(a, b),
        bytes_le(b, a),
    ensures
        a == b,
    decreases a.len(),
{
    if a.len() > 0 {
        lemma_bytes_le_antisymmetric(a.drop_first(), b.drop_first());
        assert(a =~= seq![a[0]] + a.drop_first());
        assert(b =~= seq![b[0]] + b.drop_first());
    } else {
        assert(b.len() == 0);
        assert(a =~= b);
    }
}

proof fn lemma_bytes_le_transitive(a: Seq<u8>, b: Seq<u8>, c: Seq<u8>)
    requires
        bytes_le(a, b),
        bytes_le(b, c),
    ensures
        bytes_le(a, c),
    decreases a.len(),
{
    if a.len() > 0 && b.len() > 0 && c.len() > 0 && a[0] == b[0] && b[0] == c[0] {
        lemma_bytes_le_transitive(a.drop_first(), b.drop_first(), c.drop_first());
    }
}

proof fn lemma_text_le_antisymmetric(a: Seq<char>, b: Seq<char>)
    requires
        text_le(a, b),
        text_le(b, a),
    ensures
        a == b,
{
    lemma_bytes_le_antisymmetric(encode_utf8(a), encode_utf8(b));
    encode_utf8_decode_utf8(a);
    encode_utf8_decode_utf8(b);
}

/// Relies on `slice::sort`, reached through `Vec`: it permutes the strings
/// into ascending order of `Ord for String`, which compares the UTF-8 bytes
/// lexicographically.
#[verifier::external_body]
fn sort_strings(v: &mut Vec<String>)
    ensures
        final(v)@.to_multiset() == old(v)@.to_multiset(),
        sorted_texts(string_views(final(v)@)),
{
    v.sort();
}

/// Returns `v` without the strings equal to the one before them.
fn dedup_sorted(v: Vec<String>) -> (r: Vec<String>)
    requires
        sorted_texts(string_views(v@)),
    ensures
        sorted_texts(string_views(r@)),
        string_views(r@).no_duplicates(),
        forall|x: Seq<char>| string_views(r@).contains(x) <==> string_views(v@).contains(x),
{
    let ghost vs = string_views(v@);
    let mut r: Vec<String> = Vec::new();
    let mut i: usize = 0;
    while i < v.len()
        invariant
            i <= v.len(),
            vs == string_views(v@),
            sorted_texts(vs),
            sorted_texts(string_views(r@)),
            string_views(r@).no_duplicates(),
            i == 0 <==> r.len() == 0,
            i > 0 ==> r@[r.len() - 1]@ == vs[i - 1],
            i > 0 ==> forall|p: int| 0 <= p < r.len() ==> text_le(#[trigger] r@[p]@, vs[i - 1]),
            forall|x: Seq<char>|
                string_views(r@).contains(x) <==> vs.subrange(0, i as int).contains(x),
        decreases v.len() - i,
    {
        let ghost rs = string_views(r@);
        let s = &v[i];
        assert(vs[i as int] == s@);
        if r.len() == 0 || r[r.len() - 1] != *s {
            proof {
                if i > 0 {
                    assert(text_le(vs[i - 1], vs[i as int]));
                    assert forall|p: int| 0 <= p < r.len() implies text_le(
                        #[trigger] r@[p]@,
                        s@,
                    ) by {
                        lemma_bytes_le_transitive(
                            encode_utf8(r@[p]@),
                            encode_utf8(vs[i - 1]),
                            encode_utf8(s@),
                        );
                    }
                    assert(!rs.contains(s@)) by {
                        if rs.contains(s@) {
                            let p = choose|p: int| 0 <= p < rs.len() && rs[p] == s@;
                            assert(r@[p]@ == s@);
                            lemma_text_le_antisymmetric(vs[i - 1], s@);
                        }
                    }
                }
            }
            r.push(s.clone());
            proof {
                lemma_bytes_le_reflexive(encode_utf8(s@));
                assert(string_views(r@) =~= rs.push(s@));
            }
        } else {
            assert(vs[i - 1] == s@);
        }
        proof {
            let nr = string_views(r@);
            assert(vs.subrange(0, i + 1) =~= vs.subrange(0, i as int).push(s@));
            assert(nr.len() >= rs.len());
            assert(forall|p: int| 0 <= p < rs.len() ==> nr[p] == rs[p]);
            assert(nr[nr.len() - 1] == s@);
            assert forall|x: Seq<char>| nr.contains(x) <==> vs.subrange(0, i + 1).contains(x) by {
                let pre = vs.subrange(0, i as int);
                if pre.contains(x) {
                    assert(rs.contains(x));
                    let p = choose|p: int| 0 <= p < rs.len() && rs[p] == x;
                    assert(nr[p] == x);
                }
                if x == s@ {
                    assert(nr[nr.len() - 1] == x);
                    assert(vs.subrange(0, i + 1)[i as int] == x);
                }
                if nr.contains(x) && x != s@ {
                    let p = choose|p: int| 0 <= p < nr.len() && nr[p] == x;
                    if p < rs.len() {
                        assert(rs[p] == x);
                        assert(rs.contains(x));
                        assert(pre.contains(x));
                        let q = choose|q: int| 0 <= q < pre.len() && pre[q] == x;
                        assert(vs.subrange(0, i + 1)[q] == x);
                    }
                }
            }
        }
        i = i + 1;
    }
    assert(vs.subrange(0, i as int) =~= vs);
    r
}

/// The exclusion patterns of a merge: the built-in ones and the custom ones
/// together, each once, in ascending order.
pub open spec fn merged_patterns(r: Seq<Seq<char>>, custom: Seq<Seq<char>>) -> bool {
    &&& sorted_texts(r)
    &&& r.no_duplicates()
    &&& forall|x: Seq<char>|
        r.contains(x) <==> default_exclude_pattern_list().contains(x) || custom.contains(x)
}

/// Returns `base` with the settings of `custom` laid over it: custom search
/// roots when it names any, the built-in and custom exclusion patterns together
/// when it names any, its detection kinds, and its CI policy when it has one.
pub fn merge_configs(base: Config, custom: Config) -> (r: Config)
    ensures
        r.search_dirs == if custom.search_dirs.len() == 0 {
            base.search_dirs
        } else {
            custom.search_dirs
        },
        custom.exclude_patterns.len() == 0 ==> r.exclude_patterns == base.exclude_patterns,
        custom.exclude_patterns.len() > 0 ==> merged_patterns(
            string_views(r.exclude_patterns@),
            string_views(custom.exclude_patterns@),
        ),
        r.detection_types == custom.detection_types,
        r.ci == if custom.ci is Some {
            custom.ci
        } else {
            base.ci
        },
{
    let search_dirs = if custom.search_dirs.len() == 0 {
        base.search_dirs
    } else {
        custom.search_dirs
    };
    let exclude_patterns = if custom.exclude_patterns.len() == 0 {
        base.exclude_patterns
    } else {
        let mut patterns = default_exclude_patterns();
        let ghost defaults = patterns@;
        let mut extra = custom.exclude_patterns;
        let ghost extras = extra@;
        patterns.append(&mut extra);
        let ghost joined = patterns@;
        assert(joined == defaults + extras);
        sort_strings(&mut patterns);
        proof {
            broadcast use vstd::seq_lib::group_to_multiset_ensures;

            assert forall|x: Seq<char>| string_views(patterns@).contains(x) <==> (
            default_exclude_pattern_list().contains(x) || string_views(extras).contains(x)) by {
                if string_views(patterns@).contains(x) {
                    let p = choose|p: int|
                        0 <= p < patterns@.len() && string_views(patterns@)[p] == x;
                    assert(patterns@.to_multiset().count(patterns@[p]) > 0);
                    assert(joined.contains(patterns@[p]));
                    let q = choose|q: int| 0 <= q < joined.len() && joined[q] == patterns@[p];
                    if q < defaults.len() {
                        assert(string_views(defaults)[q] == x);
                    } else {
                        assert(string_views(extras)[q - defaults.len()] == x);
                    }
                }
                if default_exclude_pattern_list().contains(x) {
                    let q = choose|q: int|
                        0 <= q < defaults.len() && string_views(defaults)[q] == x;
                    assert(joined[q] == defaults[q]);
                    assert(joined.contains(defaults[q]));
                    assert(patterns@.to_multiset().count(defaults[q]) > 0);
                    let p = choose|p: int| 0 <= p < patterns@.len() && patterns@[p] == defaults[q];
                    assert(string_views(patterns@)[p] == x);
                }
                if string_views(extras).contains(x) {
                    let q = choose|q: int| 0 <= q < extras.len() && string_views(extras)[q] == x;
                    assert(joined[defaults.len() + q] == extras[q]);
                    assert(joined.contains(extras[q]));
                    assert(patterns@.to_multiset().count(extras[q]) > 0);
                    let p = choose|p: int| 0 <= p < patterns@.len() && patterns@[p] == extras[q];
                    assert(string_views(patterns@)[p] == x);
                }
            }
        }
        dedup_sorted(patterns)
    };
    let ci = match custom.ci {
        Some(c) => Some(c),
        None => base.ci,
    };
    Config { search_dirs, exclude_patterns, detection_types: custom.detection_types, ci }
}

/// The configuration file to read: the one given, else the one found; none
/// when neither exists or the chosen path is empty, in which case the
/// defaults apply.
pub open spec fn chosen_config_path(explicit: Option<Seq<char>>, discovered: Option<Seq<char>>) -> Option<
    Seq<char>,
> {
    let chosen = if explicit is Some {
        explicit
    } else {
        discovered
    };
    match chosen {
        Some(p) => if p.len() > 0 {
            Some(p)
        } else {
            None
        },
        None => None,
    }
}

/// The view of an optional path.
pub open spec fn path_view(p: Option<String>) -> Option<Seq<char>> {
    match p {
        Some(s) => Some(s@),
        None => None,
    }
}

/// Returns the configuration file to read: `explicit` when given, else
/// `discovered`; `None` when that is absent or empty.
pub fn resolve_config_path(explicit: Option<String>, discovered: Option<String>) -> (r: Option<String>)
    ensures
        path_view(r) == chosen_config_path(path_view(explicit), path_view(discovered)),
{
    let chosen = match explicit {
        Some(p) => Some(p),
        None => discovered,
    };
    match chosen {
        Some(p) => if p.as_str().is_empty() {
            None
        } else {
            Some(p)
        },
        None => None,
    }
}

/// Whether `path` names a JSON file.
pub open spec fn json_path(path: Seq<char>) -> bool {
    path.len() >= 5 && path.subrange(path.len() - 5, path.len() as int) == ".json"@
}

/// Accepts a configuration file name that ends in `.json`; any other format is
/// a configuration error.
pub fn check_config_format(path: &str) -> (r: Result<(), DetectorError>)
    ensures
        r is Ok <==> json_path(path@),
        r matches Err(e) ==> e is Config,
{
    let p = chars_of(path);
    let suffix = chars_of(".json");
    proof {
        reveal_strlit(".json");
    }
    if p.len() >= 5 && occurs_at(&p, &suffix, p.len() - 5) {
        Ok(())
    } else {
        Err(
            DetectorError::Config {
                message: String::from_str("Only JSON configuration files are supported."),
            },
        )
    }
}

/// The search roots of a monorepo: each root under each application folder
/// `apps/<app>`, application by application.
pub open spec fn app_search_dirs(apps: Seq<Seq<char>>, dirs: Seq<Seq<char>>) -> Seq<Seq<char>>
    decreases apps.len(),
{
    if apps.len() == 0 {
        Seq::empty()
    } else {
        app_search_dirs(apps.drop_last(), dirs) + dirs_under_app(apps.last(), dirs)
    }
}

/// The search roots `dirs` under the application folder `apps/<app>`.
pub open spec fn dirs_under_app(app: Seq<char>, dirs: Seq<Seq<char>>) -> Seq<Seq<char>> {
    dirs.map_values(|d: Seq<char>| "apps/"@ + app + "/"@ + d)
}

/// Returns `apps/<app>/<dir>` for each application folder name in `apps` and
/// each search root in `dirs`.
pub fn monorepo_search_dirs(apps: &Vec<String>, dirs: &Vec<String>) -> (r: Vec<String>)
    ensures
        string_views(r@) == app_search_dirs(string_views(apps@), string_views(dirs@)),
{
    let ghost av = string_views(apps@);
    let ghost dv = string_views(dirs@);
    let mut r: Vec<String> = Vec::new();
    let mut i: usize = 0;
    assert(string_views(r@) =~= app_search_dirs(av.subrange(0, 0), dv));
    while i < apps.len()
        invariant
            i <= apps.len(),
            av == string_views(apps@),
            dv == string_views(dirs@),
            string_views(r@) == app_search_dirs(av.subrange(0, i as int), dv),
        decreases apps.len() - i,
    {
        let ghost start = string_views(r@);
        let app = &apps[i];
        let mut j: usize = 0;
        while j < dirs.len()
            invariant
                j <= dirs.len(),
                i < apps.len(),
                app == &apps[i as int],
                dv == string_views(dirs@),
                string_views(r@) == start + dirs_under_app(app@, dv.subrange(0, j as int)),
            decreases dirs.len() - j,
        {
            let mut s = String::from_str("apps/");
            s.append(app.as_str());
            s.append("/");
            s.append(dirs[j].as_str());
            let ghost prev = string_views(r@);
            assert(s@ == "apps/"@ + app@ + "/"@ + dv[j as int]);
            r.push(s);
            assert(string_views(r@) =~= prev.push(s@));
            assert(dirs_under_app(app@, dv.subrange(0, j + 1)) =~= dirs_under_app(
                app@,
                dv.subrange(0, j as int),
            ).push(s@));
            j = j + 1;
        }
        assert(dv.subrange(0, j as int) =~= dv);
        assert(av.subrange(0, i + 1).drop_last() =~= av.subrange(0, i as int));
        assert(av.subrange(0, i + 1).last() == app@);
        i = i + 1;
        assert(string_views(r@) =~= app_search_dirs(av.subrange(0, i as int), dv));
    }
    assert(av.subrange(0, i as int) =~= av);
    r
}

/// Returns `config` with the built-in search root `src` when it names no
/// search root, and unchanged otherwise.
pub fn with_default_search_dirs(config: Config) -> (r: Config)
    ensures
        config.search_dirs.len() == 0 ==> string_views(r.search_dirs@) == seq!["src"@],
        config.search_dirs.len() > 0 ==> r.search_dirs == config.search_dirs,
        r.exclude_patterns == config.exclude_patterns,
        r.detection_types == config.detection_types,
        r.ci == config.ci,
{
    if config.search_dirs.len() == 0 {
        let mut search_dirs: Vec<String> = Vec::new();
        search_dirs.push(String::from_str("src"));
        assert(string_views(search_dirs@) =~= seq!["src"@]);
        Config { search_dirs, ..config }
    } else {
        config
    }
}

} // verus!
