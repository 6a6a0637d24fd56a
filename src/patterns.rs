//! The pattern-matching strategy: definitions and references found by
//! regular expressions over the raw text of each file, without a parser.
//!
//! It accepts more false positives than the syntax-tree strategy (declarations
//! in nested scopes, commented-out code) and needs no grammar. Its results feed
//! the same resolver.

use vstd::prelude::*;

use crate::definitions::found;
use crate::text::{chars_of, line_index, line_at};
use crate::types::{
    definition_views, reference_views, string_views, DefinitionView, DetectionTypes, DetectorError,
    ElementDefinition, ElementReference, ElementType, ReferenceView,
};

verus! {

/// One match of a regular expression: the byte offset at which it starts, the
/// text it matched, and the text of its first capture group when that group
/// took part.
pub struct RegexMatch {
    pub start: usize,
    pub text: String,
    pub group: Option<String>,
}

/// The view of a [`RegexMatch`].
pub struct MatchView {
    pub start: usize,
    pub text: Seq<char>,
    pub group: Option<Seq<char>>,
}

impl View for RegexMatch {
    type V = MatchView;

    open spec fn view(&self) -> MatchView {
        MatchView {
            start: self.start,
            text: self.text@,
            group: match self.group {
                Some(g) => Some(g@),
                None => None,
            },
        }
    }
}

/// The views of a list of matches.
pub open spec fn match_views(v: Seq<RegexMatch>) -> Seq<MatchView> {
    v.map_values(|m: RegexMatch| m@)
}

/// Whether `pattern` is a regular expression that compiles within the
/// default size limits.
pub uninterp spec fn regex_compiles(pattern: Seq<char>) -> bool;

/// The successive non-overlapping matches of the regular expression `pattern`
/// in `text`, from left to right.
pub uninterp spec fn regex_matches(pattern: Seq<char>, text: Seq<char>) -> Seq<MatchView>;

/// Relies on `regex::Regex::new` and `Regex::captures_iter`: compiles
/// `pattern` and lists its successive non-overlapping matches in `text`, each
/// with group 0 (which `Captures::get` guarantees for every match) and group 1.
/// Compilation fails or succeeds by the pattern alone.
#[verifier::external_body]
fn find_matches(pattern: &str, text: &str) -> (r: Result<Vec<RegexMatch>, DetectorError>)
    ensures
        r is Ok <==> regex_compiles(pattern@),
        r matches Ok(v) ==> match_views(v@) == regex_matches(pattern@, text@),
        r matches Err(e) ==> e is Regex,
{
    let re = regex::Regex::new(pattern).map_err(|e| DetectorError::Regex(e.to_string()))?;
    let mut out = Vec::new();
    for c in re.captures_iter(text) {
        let m = c.get(0).unwrap();
        let group = c.get(1).map(|g| g.as_str().to_string());
        out.push(RegexMatch { start: m.start(), text: m.as_str().to_string(), group });
    }
    Ok(out)
}

/// The regular expressions whose first group captures the name of a
/// definition of kind `t`.
pub open spec fn definition_patterns(t: ElementType) -> Seq<Seq<char>> {
    match t {
        ElementType::Component => seq![
            "export\\s+default\\s+function\\s+([A-Z]\\w*)"@,
            "export\\s+const\\s+([A-Z]\\w*)\\s*=\\s*(?:React\\.)?(?:memo|forwardRef)\\b"@,
            "export\\s+const\\s+([A-Z]\\w*)\\s*=\\s*(?:async\\s*)?\\([^)]*\\)\\s*=>"@,
        ],
        ElementType::Type => seq!["export\\s+type\\s+([A-Z]\\w*)"@],
        ElementType::Interface => seq!["export\\s+interface\\s+([A-Z]\\w*)"@],
        ElementType::Function => seq![
            "export\\s+(?:async\\s+)?function\\s+([a-z]\\w*)"@,
            "export\\s+const\\s+([a-z]\\w*)\\s*=\\s*(?:async\\s*)?(?:\\([^)]*\\)|\\w+)\\s*=>"@,
        ],
        ElementType::Variable => seq!["export\\s+(?:const|let)\\s+([A-Z][A-Z0-9_]*)\\s*[:=]"@],
        ElementType::Enum => seq!["export\\s+(?:const\\s+)?enum\\s+([A-Z]\\w*)"@],
    }
}

/// Returns the regular expressions for definitions of kind `t`.
fn definition_patterns_of(t: ElementType) -> (r: Vec<&'static str>)
    ensures
        r@.map_values(|p: &str| p@) == definition_patterns(t),
{
    let r: Vec<&'static str> = match t {
        ElementType::Component => vec![
            "export\\s+default\\s+function\\s+([A-Z]\\w*)",
            "export\\s+const\\s+([A-Z]\\w*)\\s*=\\s*(?:React\\.)?(?:memo|forwardRef)\\b",
            "export\\s+const\\s+([A-Z]\\w*)\\s*=\\s*(?:async\\s*)?\\([^)]*\\)\\s*=>",
        ],
        ElementType::Type => vec!["export\\s+type\\s+([A-Z]\\w*)"],
        ElementType::Interface => vec!["export\\s+interface\\s+([A-Z]\\w*)"],
        ElementType::Function => vec![
            "export\\s+(?:async\\s+)?function\\s+([a-z]\\w*)",
            "export\\s+const\\s+([a-z]\\w*)\\s*=\\s*(?:async\\s*)?(?:\\([^)]*\\)|\\w+)\\s*=>",
        ],
        ElementType::Variable => vec!["export\\s+(?:const|let)\\s+([A-Z][A-Z0-9_]*)\\s*[:=]"],
        ElementType::Enum => vec!["export\\s+(?:const\\s+)?enum\\s+([A-Z]\\w*)"],
    };
    assert(r@.map_values(|p: &str| p@) =~= definition_patterns(t));
    r
}

/// The definitions of kind `t` that the matches `ms` in `text`, the content of
/// `file`, name: one for each match whose group took part.
pub open spec fn match_definitions(
    t: ElementType,
    file: Seq<char>,
    text: Seq<char>,
    ms: Seq<MatchView>,
) -> Seq<DefinitionView>
    decreases ms.len(),
{
    if ms.len() == 0 {
        Seq::empty()
    } else {
        let rest = match_definitions(t, file, text, ms.drop_last());
        match ms.last().group {
            Some(n) => rest.push(found(n, t, file, text, ms.last().start)),
            None => rest,
        }
    }
}

/// The definitions of kind `t` that the patterns `ps` find in `text`, pattern
/// by pattern.
pub open spec fn patterns_definitions(
    t: ElementType,
    file: Seq<char>,
    text: Seq<char>,
    ps: Seq<Seq<char>>,
) -> Seq<DefinitionView>
    decreases ps.len(),
{
    if ps.len() == 0 {
        Seq::empty()
    } else {
        patterns_definitions(t, file, text, ps.drop_last()) + match_definitions(
            t,
            file,
            text,
            regex_matches(ps.last(), text),
        )
    }
}

/// Whether kind `t` is scanned.
pub open spec fn kind_enabled(types: DetectionTypes, t: ElementType) -> bool {
    match t {
        ElementType::Component => types.components,
        ElementType::Type => types.types,
        ElementType::Interface => types.interfaces,
        ElementType::Function => types.functions,
        ElementType::Variable => types.variables,
        ElementType::Enum => types.enums,
    }
}

/// The definitions of kind `t` found in `text`, when that kind is scanned.
pub open spec fn kind_text_definitions(
    types: DetectionTypes,
    t: ElementType,
    file: Seq<char>,
    text: Seq<char>,
) -> Seq<DefinitionView> {
    if kind_enabled(types, t) {
        patterns_definitions(t, file, text, definition_patterns(t))
    } else {
        Seq::empty()
    }
}

/// The definitions that the patterns find in `text`, the content of `file`,
/// kind by kind in the order in which the kinds are declared.
pub open spec fn text_definitions(types: DetectionTypes, file: Seq<char>, text: Seq<char>) -> Seq<
    DefinitionView,
> {
    kind_text_definitions(types, ElementType::Component, file, text) + kind_text_definitions(
        types,
        ElementType::Type,
        file,
        text,
    ) + kind_text_definitions(types, ElementType::Interface, file, text) + kind_text_definitions(
        types,
        ElementType::Function,
        file,
        text,
    ) + kind_text_definitions(types, ElementType::Variable, file, text) + kind_text_definitions(
        types,
        ElementType::Enum,
        file,
        text,
    )
}

/// Whether every definition pattern of kind `t` compiles, when that kind is
/// scanned.
pub open spec fn kind_patterns_compile(types: DetectionTypes, t: ElementType) -> bool {
    kind_enabled(types, t) ==> forall|i: int|
        0 <= i < definition_patterns(t).len() ==> regex_compiles(
            #[trigger] definition_patterns(t)[i],
        )
}

/// Whether every definition pattern of every scanned kind compiles.
pub open spec fn definition_patterns_compile(types: DetectionTypes) -> bool {
    forall|t: ElementType| #[trigger] kind_patterns_compile(types, t)
}

/// Whether kind `t` is scanned.
fn is_kind_enabled(types: DetectionTypes, t: ElementType) -> (r: bool)
    ensures
        r == kind_enabled(types, t),
{
    match t {
        ElementType::Component => types.components,
        ElementType::Type => types.types,
        ElementType::Interface => types.interfaces,
        ElementType::Function => types.functions,
        ElementType::Variable => types.variables,
        ElementType::Enum => types.enums,
    }
}

/// Appends to `out` the definitions of kind `t` that the matches `ms` name.
fn push_match_definitions(
    out: &mut Vec<ElementDefinition>,
    t: ElementType,
    file: &str,
    text: &Vec<char>,
    ms: &Vec<RegexMatch>,
)
    ensures
        definition_views(final(out)@) == definition_views(old(out)@) + match_definitions(
            t,
            file@,
            text@,
            match_views(ms@),
        ),
{
    let ghost before = definition_views(out@);
    let ghost mv = match_views(ms@);
    let mut i: usize = 0;
    assert(before + match_definitions(t, file@, text@, mv.subrange(0, 0)) =~= before);
    while i < ms.len()
        invariant
            i <= ms.len(),
            mv == match_views(ms@),
            definition_views(out@) == before + match_definitions(
                t,
                file@,
                text@,
                mv.subrange(0, i as int),
            ),
        decreases ms.len() - i,
    {
        let m = &ms[i];
        assert(mv.subrange(0, i + 1).drop_last() =~= mv.subrange(0, i as int));
        assert(mv.subrange(0, i + 1).last() == m@);
        let ghost prev = definition_views(out@);
        if let Some(name) = &m.group {
            assert(m@.group == Some(name@));
            let should_ignore = crate::text::has_ignore_comment(text, m.start);
            out.push(
                ElementDefinition {
                    name: name.clone(),
                    element_type: t,
                    file: String::from_str(file),
                    should_ignore,
                },
            );
            assert(definition_views(out@) =~= prev.push(found(name@, t, file@, text@, m.start)));
        } else {
            assert(m@.group is None);
        }
        i = i + 1;
        assert(definition_views(out@) =~= before + match_definitions(
            t,
            file@,
            text@,
            mv.subrange(0, i as int),
        ));
    }
    assert(mv.subrange(0, i as int) =~= mv);
}

/// Appends to `out` the definitions of kind `t` found in `content`, when that
/// kind is scanned.
fn push_kind_definitions(
    out: &mut Vec<ElementDefinition>,
    types: DetectionTypes,
    t: ElementType,
    file: &str,
    content: &str,
    text: &Vec<char>,
) -> (r: Result<(), DetectorError>)
    requires
        text@ == content@,
    ensures
        r is Ok <==> kind_patterns_compile(types, t),
        r is Ok ==> definition_views(final(out)@) == definition_views(old(out)@)
            + kind_text_definitions(types, t, file@, content@),
        r matches Err(e) ==> e is Regex,
{
    if !is_kind_enabled(types, t) {
        assert(definition_views(out@) =~= definition_views(out@) + Seq::empty());
        return Ok(());
    }
    let ps = definition_patterns_of(t);
    let ghost pv = ps@.map_values(|p: &str| p@);
    let ghost before = definition_views(out@);
    let mut i: usize = 0;
    assert(before + patterns_definitions(t, file@, content@, pv.subrange(0, 0)) =~= before);
    while i < ps.len()
        invariant
            i <= ps.len(),
            text@ == content@,
            pv == ps@.map_values(|p: &str| p@),
            pv == definition_patterns(t),
            kind_enabled(types, t),
            forall|k: int| 0 <= k < i ==> regex_compiles(#[trigger] pv[k]),
            definition_views(out@) == before + patterns_definitions(
                t,
                file@,
                content@,
                pv.subrange(0, i as int),
            ),
        decreases ps.len() - i,
    {
        assert(pv[i as int] == ps@[i as int]@);
        let ms = match find_matches(ps[i], content) {
            Ok(ms) => ms,
            Err(e) => {
                assert(!regex_compiles(definition_patterns(t)[i as int]));
                return Err(e);
            },
        };
        assert(pv.subrange(0, i + 1).drop_last() =~= pv.subrange(0, i as int));
        assert(pv.subrange(0, i + 1).last() == ps@[i as int]@);
        push_match_definitions(out, t, file, text, &ms);
        i = i + 1;
        assert(definition_views(out@) =~= before + patterns_definitions(
            t,
            file@,
            content@,
            pv.subrange(0, i as int),
        ));
    }
    assert(pv.subrange(0, i as int) =~= pv);
    Ok(())
}

/// Returns the definitions that the patterns find in `content`, the content of
/// `file`, for the kinds that `types` enables.
pub fn definitions_by_patterns(file: &str, content: &str, types: DetectionTypes) -> (r: Result<
    Vec<ElementDefinition>,
    DetectorError,
>)
    ensures
        r is Ok <==> definition_patterns_compile(types),
        r matches Ok(v) ==> definition_views(v@) == text_definitions(types, file@, content@),
        r matches Err(e) ==> e is Regex,
{
    let text = chars_of(content);
    let mut out: Vec<ElementDefinition> = Vec::new();
    assert(definition_views(out@) =~= Seq::empty());
    push_kind_definitions(&mut out, types, ElementType::Component, file, content, &text)?;
    push_kind_definitions(&mut out, types, ElementType::Type, file, content, &text)?;
    push_kind_definitions(&mut out, types, ElementType::Interface, file, content, &text)?;
    push_kind_definitions(&mut out, types, ElementType::Function, file, content, &text)?;
    push_kind_definitions(&mut out, types, ElementType::Variable, file, content, &text)?;
    push_kind_definitions(&mut out, types, ElementType::Enum, file, content, &text)?;
    assert(definition_views(out@) =~= text_definitions(types, file@, content@));
    assert forall|t: ElementType| #[trigger] kind_patterns_compile(types, t) by {
        match t {
            ElementType::Component => {},
            ElementType::Type => {},
            ElementType::Interface => {},
            ElementType::Function => {},
            ElementType::Variable => {},
            ElementType::Enum => {},
        }
    }
    Ok(out)
}

/// The exported names of a file set grouped by name: each name once, in the
/// order of its first definition, with the kind of that definition and every
/// file that defines it.
pub struct ElementMap {
    pub definitions: Vec<(String, ElementType, Vec<String>)>,
}

/// The view of one entry of an [`ElementMap`].
pub open spec fn entry_view(e: (String, ElementType, Vec<String>)) -> (Seq<char>, ElementType, Seq<
    Seq<char>,
>) {
    (e.0@, e.1, string_views(e.2@))
}

impl View for ElementMap {
    type V = Seq<(Seq<char>, ElementType, Seq<Seq<char>>)>;

    open spec fn view(&self) -> Seq<(Seq<char>, ElementType, Seq<Seq<char>>)> {
        self.definitions@.map_values(|e: (String, ElementType, Vec<String>)| entry_view(e))
    }
}

/// Whether some entry of `ns` has the name `n`.
pub open spec fn has_name(ns: Seq<(Seq<char>, ElementType)>, n: Seq<char>) -> bool {
    exists|i: int| 0 <= i < ns.len() && (#[trigger] ns[i]).0 == n
}

/// The names that `defs` define, each once, in the order of first definition,
/// with the kind of that first definition.
pub open spec fn distinct_names(defs: Seq<DefinitionView>) -> Seq<(Seq<char>, ElementType)>
    decreases defs.len(),
{
    if defs.len() == 0 {
        Seq::empty()
    } else {
        let ns = distinct_names(defs.drop_last());
        let d = defs.last();
        if has_name(ns, d.name) {
            ns
        } else {
            ns.push((d.name, d.element_type))
        }
    }
}

/// The files of the definitions of `n` in `defs`, in order.
pub open spec fn files_defining(defs: Seq<DefinitionView>, n: Seq<char>) -> Seq<Seq<char>>
    decreases defs.len(),
{
    if defs.len() == 0 {
        Seq::empty()
    } else {
        let fs = files_defining(defs.drop_last(), n);
        if defs.last().name == n {
            fs.push(defs.last().file)
        } else {
            fs
        }
    }
}

/// The grouping of `defs` by name.
pub open spec fn element_map(defs: Seq<DefinitionView>) -> Seq<(Seq<char>, ElementType, Seq<Seq<char>>)> {
    distinct_names(defs).map_values(
        |e: (Seq<char>, ElementType)| (e.0, e.1, files_defining(defs, e.0)),
    )
}

impl ElementMap {
    /// Groups `defs` by name.
    pub fn from_definitions(defs: &Vec<ElementDefinition>) -> (r: ElementMap)
        ensures
            r@ == element_map(definition_views(defs@)),
    {
        let ghost dv = definition_views(defs@);
        let mut names: Vec<(String, ElementType)> = Vec::new();
        let mut i: usize = 0;
        assert(names@.map_values(|e: (String, ElementType)| (e.0@, e.1)) =~= distinct_names(
            dv.subrange(0, 0),
        ));
        while i < defs.len()
            invariant
                i <= defs.len(),
                dv == definition_views(defs@),
                names@.map_values(|e: (String, ElementType)| (e.0@, e.1)) == distinct_names(
                    dv.subrange(0, i as int),
                ),
            decreases defs.len() - i,
        {
            let d = &defs[i];
            let ghost ns = names@.map_values(|e: (String, ElementType)| (e.0@, e.1));
            assert(dv.subrange(0, i + 1).drop_last() =~= dv.subrange(0, i as int));
            assert(dv.subrange(0, i + 1).last() == d@);
            let mut j: usize = 0;
            let mut known = false;
            while j < names.len()
                invariant
                    j <= names.len(),
                    ns == names@.map_values(|e: (String, ElementType)| (e.0@, e.1)),
                    known <==> exists|k: int| 0 <= k < j && (#[trigger] ns[k]).0 == d.name@,
                decreases names.len() - j,
            {
                assert(ns[j as int] == (names@[j as int].0@, names@[j as int].1));
                if names[j].0 == d.name {
                    known = true;
                }
                j = j + 1;
            }
            assert(known <==> has_name(ns, d.name@));
            if !known {
                names.push((d.name.clone(), d.element_type));
                assert(names@.map_values(|e: (String, ElementType)| (e.0@, e.1)) =~= ns.push(
                    (d.name@, d.element_type),
                ));
            }
            i = i + 1;
        }
        assert(dv.subrange(0, i as int) =~= dv);
        let ghost nv = distinct_names(dv);
        let mut entries: Vec<(String, ElementType, Vec<String>)> = Vec::new();
        let mut k: usize = 0;
        while k < names.len()
            invariant
                k <= names.len(),
                dv == definition_views(defs@),
                nv == distinct_names(dv),
                names@.map_values(|e: (String, ElementType)| (e.0@, e.1)) == nv,
                entries.len() == k,
                entries@.map_values(|e: (String, ElementType, Vec<String>)| entry_view(e))
                    == element_map(dv).subrange(0, k as int),
            decreases names.len() - k,
        {
            let n = &names[k].0;
            assert(nv[k as int] == (n@, names[k as int].1));
            let mut files: Vec<String> = Vec::new();
            let mut m: usize = 0;
            assert(string_views(files@) =~= files_defining(dv.subrange(0, 0), n@));
            while m < defs.len()
                invariant
                    m <= defs.len(),
                    dv == definition_views(defs@),
                    string_views(files@) == files_defining(dv.subrange(0, m as int), n@),
                decreases defs.len() - m,
            {
                assert(dv.subrange(0, m + 1).drop_last() =~= dv.subrange(0, m as int));
                assert(dv.subrange(0, m + 1).last() == defs@[m as int]@);
                if defs[m].name == *n {
                    files.push(defs[m].file.clone());
                }
                m = m + 1;
                assert(string_views(files@) =~= files_defining(dv.subrange(0, m as int), n@));
            }
            assert(dv.subrange(0, m as int) =~= dv);
            let ghost prev = entries@;
            let e = (n.clone(), names[k].1, files);
            assert(entry_view(e) == element_map(dv)[k as int]);
            entries.push(e);
            k = k + 1;
            assert(entries@ == prev.push(e));
            assert(entries@.map_values(|e: (String, ElementType, Vec<String>)| entry_view(e))
                =~= element_map(dv).subrange(0, k as int));
        }
        assert(element_map(dv).subrange(0, k as int) =~= element_map(dv));
        ElementMap { definitions: entries }
    }
}

/// The text before and after the name in each regular expression that finds a
/// use of an element of kind `t`: JSX opening tags, names inside import
/// braces, calls, and type positions (`: Name`, `<Name>`, `extends Name`,
/// `implements Name`).
pub open spec fn usage_affixes(t: ElementType) -> Seq<(Seq<char>, Seq<char>)> {
    match t {
        ElementType::Component => seq![
            ("<"@, "\\b"@),
            ("import\\s*(?:type\\s+)?\\{[^}]*\\b"@, "\\b[^}]*\\}"@),
            ("\\b"@, "\\s*\\("@),
        ],
        ElementType::Type => seq![
            (":\\s*"@, "\\b"@),
            ("<"@, ">"@),
            ("extends\\s+"@, "\\b"@),
            ("import\\s*(?:type\\s+)?\\{[^}]*\\b"@, "\\b[^}]*\\}"@),
        ],
        ElementType::Interface => seq![
            (":\\s*"@, "\\b"@),
            ("<"@, ">"@),
            ("extends\\s+"@, "\\b"@),
            ("implements\\s+"@, "\\b"@),
            ("import\\s*(?:type\\s+)?\\{[^}]*\\b"@, "\\b[^}]*\\}"@),
        ],
        ElementType::Function => seq![
            ("\\b"@, "\\s*\\("@),
            ("import\\s*(?:type\\s+)?\\{[^}]*\\b"@, "\\b[^}]*\\}"@),
        ],
        ElementType::Variable => seq![("\\b"@, "\\b"@)],
        ElementType::Enum => seq![
            ("\\b"@, "\\."@),
            (":\\s*"@, "\\b"@),
            ("import\\s*(?:type\\s+)?\\{[^}]*\\b"@, "\\b[^}]*\\}"@),
        ],
    }
}

/// Returns the affixes of the usage expressions for kind `t`.
fn usage_affixes_of(t: ElementType) -> (r: Vec<(&'static str, &'static str)>)
    ensures
        r@.map_values(|a: (&str, &str)| (a.0@, a.1@)) == usage_affixes(t),
{
    let r: Vec<(&'static str, &'static str)> = match t {
        ElementType::Component => vec![
            ("<", "\\b"),
            ("import\\s*(?:type\\s+)?\\{[^}]*\\b", "\\b[^}]*\\}"),
            ("\\b", "\\s*\\("),
        ],
        ElementType::Type => vec![
            (":\\s*", "\\b"),
            ("<", ">"),
            ("extends\\s+", "\\b"),
            ("import\\s*(?:type\\s+)?\\{[^}]*\\b", "\\b[^}]*\\}"),
        ],
        ElementType::Interface => vec![
            (":\\s*", "\\b"),
            ("<", ">"),
            ("extends\\s+", "\\b"),
            ("implements\\s+", "\\b"),
            ("import\\s*(?:type\\s+)?\\{[^}]*\\b", "\\b[^}]*\\}"),
        ],
        ElementType::Function => vec![
            ("\\b", "\\s*\\("),
            ("import\\s*(?:type\\s+)?\\{[^}]*\\b", "\\b[^}]*\\}"),
        ],
        ElementType::Variable => vec![("\\b", "\\b")],
        ElementType::Enum => vec![
            ("\\b", "\\."),
            (":\\s*", "\\b"),
            ("import\\s*(?:type\\s+)?\\{[^}]*\\b", "\\b[^}]*\\}"),
        ],
    };
    assert(r@.map_values(|a: (&str, &str)| (a.0@, a.1@)) =~= usage_affixes(t));
    r
}

/// A line number counted from 1, for the line counted from 0 as `k`; the
/// largest `usize` when it does not fit.
pub open spec fn one_based(k: nat) -> usize {
    if k < usize::MAX {
        (k + 1) as usize
    } else {
        usize::MAX
    }
}

/// The references to `n` that the matches `ms` in `text`, the content of
/// `file`, are: each on the line where its match starts, with the matched
/// text as its context.
pub open spec fn match_references(
    file: Seq<char>,
    text: Seq<char>,
    n: Seq<char>,
    ms: Seq<MatchView>,
) -> Seq<ReferenceView>
    decreases ms.len(),
{
    if ms.len() == 0 {
        Seq::empty()
    } else {
        let m = ms.last();
        match_references(file, text, n, ms.drop_last()).push(
            ReferenceView {
                name: n,
                file,
                line: one_based(line_at(text, m.start as int)),
                context: m.text,
            },
        )
    }
}

/// The regular expression that finds a use of `n` in the form `a`.
pub open spec fn usage_pattern(n: Seq<char>, a: (Seq<char>, Seq<char>)) -> Seq<char> {
    a.0 + n + a.1
}

/// The references to `n` in `text` found by the usage forms `affs`, form by
/// form.
pub open spec fn affixes_references(
    file: Seq<char>,
    text: Seq<char>,
    n: Seq<char>,
    affs: Seq<(Seq<char>, Seq<char>)>,
) -> Seq<ReferenceView>
    decreases affs.len(),
{
    if affs.len() == 0 {
        Seq::empty()
    } else {
        affixes_references(file, text, n, affs.drop_last()) + match_references(
            file,
            text,
            n,
            regex_matches(usage_pattern(n, affs.last()), text),
        )
    }
}

/// The references in `text`, the content of `file`, to the names of the
/// entries `es`, entry by entry, each found by the usage forms of its kind.
pub open spec fn text_references(
    file: Seq<char>,
    text: Seq<char>,
    es: Seq<(Seq<char>, ElementType, Seq<Seq<char>>)>,
) -> Seq<ReferenceView>
    decreases es.len(),
{
    if es.len() == 0 {
        Seq::empty()
    } else {
        let e = es.last();
        text_references(file, text, es.drop_last()) + affixes_references(
            file,
            text,
            e.0,
            usage_affixes(e.1),
        )
    }
}

/// Whether every usage pattern of every entry of `es` compiles.
pub open spec fn usage_patterns_compile(es: Seq<(Seq<char>, ElementType, Seq<Seq<char>>)>) -> bool {
    forall|k: int, j: int|
        0 <= k < es.len() && 0 <= j < usage_affixes(es[k].1).len() ==> regex_compiles(
            #[trigger] usage_pattern(es[k].0, usage_affixes(es[k].1)[j]),
        )
}

/// Appends to `out` the references to `n` that the matches `ms` are.
fn push_match_references(
    out: &mut Vec<ElementReference>,
    file: &str,
    text: &Vec<char>,
    n: &String,
    ms: &Vec<RegexMatch>,
)
    ensures
        reference_views(final(out)@) == reference_views(old(out)@) + match_references(
            file@,
            text@,
            n@,
            match_views(ms@),
        ),
{
    let ghost before = reference_views(out@);
    let ghost mv = match_views(ms@);
    let mut i: usize = 0;
    assert(before + match_references(file@, text@, n@, mv.subrange(0, 0)) =~= before);
    while i < ms.len()
        invariant
            i <= ms.len(),
            mv == match_views(ms@),
            reference_views(out@) == before + match_references(
                file@,
                text@,
                n@,
                mv.subrange(0, i as int),
            ),
        decreases ms.len() - i,
    {
        let m = &ms[i];
        assert(mv.subrange(0, i + 1).drop_last() =~= mv.subrange(0, i as int));
        assert(mv.subrange(0, i + 1).last() == m@);
        let k = line_index(text, m.start);
        let line = if k < usize::MAX {
            k + 1
        } else {
            usize::MAX
        };
        let ghost prev = reference_views(out@);
        out.push(
            ElementReference {
                name: n.clone(),
                file: String::from_str(file),
                line,
                context: m.text.clone(),
            },
        );
        assert(reference_views(out@) =~= prev.push(
            ReferenceView {
                name: n@,
                file: file@,
                line: one_based(line_at(text@, m.start as int)),
                context: m@.text,
            },
        ));
        i = i + 1;
        assert(reference_views(out@) =~= before + match_references(
            file@,
            text@,
            n@,
            mv.subrange(0, i as int),
        ));
    }
    assert(mv.subrange(0, i as int) =~= mv);
}

/// Returns the regular expression that finds a use of `n` in the form
/// `(prefix, suffix)`.
fn usage_pattern_of(n: &String, prefix: &str, suffix: &str) -> (r: String)
    ensures
        r@ == usage_pattern(n@, (prefix@, suffix@)),
{
    let mut p = String::from_str(prefix);
    p.append(n.as_str());
    p.append(suffix);
    p
}

/// Returns the references in `content`, the content of `file`, to the names
/// that `map` groups, entry by entry.
pub fn references_by_patterns(map: &ElementMap, file: &str, content: &str) -> (r: Result<
    Vec<ElementReference>,
    DetectorError,
>)
    ensures
        r is Ok <==> usage_patterns_compile(map@),
        r matches Ok(v) ==> reference_views(v@) == text_references(file@, content@, map@),
        r matches Err(e) ==> e is Regex,
{
    let text = chars_of(content);
    let es = &map.definitions;
    let mut out: Vec<ElementReference> = Vec::new();
    let mut i: usize = 0;
    assert(reference_views(out@) =~= text_references(file@, content@, map@.subrange(0, 0)));
    while i < es.len()
        invariant
            i <= es.len(),
            es == &map.definitions,
            text@ == content@,
            reference_views(out@) == text_references(file@, content@, map@.subrange(0, i as int)),
            forall|k: int, j: int|
                0 <= k < i && 0 <= j < usage_affixes(map@[k].1).len() ==> regex_compiles(
                    #[trigger] usage_pattern(map@[k].0, usage_affixes(map@[k].1)[j]),
                ),
        decreases es.len() - i,
    {
        let n = &es[i].0;
        let affs = usage_affixes_of(es[i].1);
        let ghost av = affs@.map_values(|a: (&str, &str)| (a.0@, a.1@));
        let ghost before = reference_views(out@);
        assert(map@[i as int] == entry_view(es@[i as int]));
        let mut j: usize = 0;
        assert(before + affixes_references(file@, content@, n@, av.subrange(0, 0)) =~= before);
        while j < affs.len()
            invariant
                j <= affs.len(),
                text@ == content@,
                av == affs@.map_values(|a: (&str, &str)| (a.0@, a.1@)),
                av == usage_affixes(map@[i as int].1),
                map@[i as int].0 == n@,
                i < es.len(),
                es == &map.definitions,
                forall|k: int, j2: int|
                    0 <= k < i && 0 <= j2 < usage_affixes(map@[k].1).len() ==> regex_compiles(
                        #[trigger] usage_pattern(map@[k].0, usage_affixes(map@[k].1)[j2]),
                    ),
                forall|j2: int| 0 <= j2 < j ==> regex_compiles(#[trigger] usage_pattern(n@, av[j2])),
                reference_views(out@) == before + affixes_references(
                    file@,
                    content@,
                    n@,
                    av.subrange(0, j as int),
                ),
            decreases affs.len() - j,
        {
            let (prefix, suffix) = affs[j];
            let pattern = usage_pattern_of(n, prefix, suffix);
            assert(av[j as int] == (prefix@, suffix@));
            let ms = match find_matches(pattern.as_str(), content) {
                Ok(ms) => ms,
                Err(e) => {
                    assert(!regex_compiles(usage_pattern(map@[i as int].0, usage_affixes(map@[i as int].1)[j as int])));
                    return Err(e);
                },
            };
            assert(av.subrange(0, j + 1).drop_last() =~= av.subrange(0, j as int));
            assert(av.subrange(0, j + 1).last() == (prefix@, suffix@));
            push_match_references(&mut out, file, &text, n, &ms);
            j = j + 1;
            assert(reference_views(out@) =~= before + affixes_references(
                file@,
                content@,
                n@,
                av.subrange(0, j as int),
            ));
        }
        assert(av.subrange(0, j as int) =~= av);
        assert(map@.subrange(0, i + 1).drop_last() =~= map@.subrange(0, i as int));
        assert forall|k: int, j2: int|
            0 <= k <= i && 0 <= j2 < usage_affixes(map@[k].1).len() implies regex_compiles(
                #[trigger] usage_pattern(map@[k].0, usage_affixes(map@[k].1)[j2]),
            ) by {
            if k == i {
                assert(regex_compiles(usage_pattern(n@, av[j2])));
            }
        }
        i = i + 1;
        assert(reference_views(out@) =~= text_references(
            file@,
            content@,
            map@.subrange(0, i as int),
        ));
    }
    assert(map@.subrange(0, i as int) =~= map@);
    Ok(out)
}

/// A source file read as text: its path and its content.
pub struct TextFile {
    pub path: String,
    pub content: String,
}

/// The definitions that the patterns find in `files`, file by file.
pub open spec fn texts_definitions(types: DetectionTypes, files: Seq<TextFile>) -> Seq<
    DefinitionView,
>
    decreases files.len(),
{
    if files.len() == 0 {
        Seq::empty()
    } else {
        let f = files.last();
        texts_definitions(types, files.drop_last()) + text_definitions(types, f.path@, f.content@)
    }
}

/// The references in `files` to the names of the entries `es`, file by file.
pub open spec fn texts_references(
    es: Seq<(Seq<char>, ElementType, Seq<Seq<char>>)>,
    files: Seq<TextFile>,
) -> Seq<ReferenceView>
    decreases files.len(),
{
    if files.len() == 0 {
        Seq::empty()
    } else {
        let f = files.last();
        texts_references(es, files.drop_last()) + text_references(f.path@, f.content@, es)
    }
}

/// Returns the definitions that the patterns find in `files`, file by file.
pub fn definitions_in_texts(files: &Vec<TextFile>, types: DetectionTypes) -> (r: Result<
    Vec<ElementDefinition>,
    DetectorError,
>)
    ensures
        r is Ok <==> files.len() == 0 || definition_patterns_compile(types),
        r matches Ok(v) ==> definition_views(v@) == texts_definitions(types, files@),
        r matches Err(e) ==> e is Regex,
{
    let mut all: Vec<ElementDefinition> = Vec::new();
    let mut i: usize = 0;
    assert(definition_views(all@) =~= texts_definitions(types, files@.subrange(0, 0)));
    while i < files.len()
        invariant
            i <= files.len(),
            definition_views(all@) == texts_definitions(types, files@.subrange(0, i as int)),
            i > 0 ==> definition_patterns_compile(types),
        decreases files.len() - i,
    {
        let f = &files[i];
        assert(files@.subrange(0, i + 1).drop_last() =~= files@.subrange(0, i as int));
        let mut found = definitions_by_patterns(f.path.as_str(), f.content.as_str(), types)?;
        all.append(&mut found);
        i = i + 1;
        assert(definition_views(all@) =~= texts_definitions(types, files@.subrange(0, i as int)));
    }
    assert(files@.subrange(0, i as int) =~= files@);
    Ok(all)
}

/// Returns the references in `files` to the names that `map` groups, file by
/// file.
pub fn references_in_texts(map: &ElementMap, files: &Vec<TextFile>) -> (r: Result<
    Vec<ElementReference>,
    DetectorError,
>)
    ensures
        r is Ok <==> files.len() == 0 || usage_patterns_compile(map@),
        r matches Ok(v) ==> reference_views(v@) == texts_references(map@, files@),
        r matches Err(e) ==> e is Regex,
{
    let mut all: Vec<ElementReference> = Vec::new();
    let mut i: usize = 0;
    assert(reference_views(all@) =~= texts_references(map@, files@.subrange(0, 0)));
    while i < files.len()
        invariant
            i <= files.len(),
            reference_views(all@) == texts_references(map@, files@.subrange(0, i as int)),
            i > 0 ==> usage_patterns_compile(map@),
        decreases files.len() - i,
    {
        let f = &files[i];
        assert(files@.subrange(0, i + 1).drop_last() =~= files@.subrange(0, i as int));
        let mut found = references_by_patterns(map, f.path.as_str(), f.content.as_str())?;
        all.append(&mut found);
        i = i + 1;
        assert(reference_views(all@) =~= texts_references(map@, files@.subrange(0, i as int)));
    }
    assert(files@.subrange(0, i as int) =~= files@);
    Ok(all)
}

} // verus!
