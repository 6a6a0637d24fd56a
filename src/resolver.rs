//! Cross-reference resolution: each definition that is not suppressed is used
//! when some reference to its name occurs in another file, and unused
//! otherwise. References in the defining file itself never count.

use vstd::prelude::*;

use crate::types::{
    definition_views, info_views, reference_views, string_views, DefinitionView,
    ElementDefinition, ElementInfo, ElementInfoView, ElementReference, ElementUsage,
    ElementUsageView, ReferenceView, Usage, UsageView, usage_entry_views, usage_views,
};

verus! {

/// Whether `r` is an occurrence of the name of `d` outside the file of `d`.
pub open spec fn refers_from_outside(d: DefinitionView, r: ReferenceView) -> bool {
    r.name == d.name && r.file != d.file
}

/// Whether some reference in `refs` is an occurrence of the name of `d`
/// outside the file of `d`.
pub open spec fn referenced_outside(d: DefinitionView, refs: Seq<ReferenceView>) -> bool {
    exists|i: int| 0 <= i < refs.len() && refers_from_outside(d, #[trigger] refs[i])
}

/// The files, other than its own, in which the name of `d` occurs, in the
/// order of their first occurrence in `refs`.
pub open spec fn usage_files(d: DefinitionView, refs: Seq<ReferenceView>) -> Seq<Seq<char>>
    decreases refs.len(),
{
    if refs.len() == 0 {
        Seq::empty()
    } else {
        let fs = usage_files(d, refs.drop_last());
        let r = refs.last();
        if refers_from_outside(d, r) && !fs.contains(r.file) {
            fs.push(r.file)
        } else {
            fs
        }
    }
}

/// The occurrences of the name of `d` in file `f`, other than its own, in
/// order.
pub open spec fn usages_in_file(d: DefinitionView, refs: Seq<ReferenceView>, f: Seq<char>) -> Seq<
    UsageView,
>
    decreases refs.len(),
{
    if refs.len() == 0 {
        Seq::empty()
    } else {
        let us = usages_in_file(d, refs.drop_last(), f);
        let r = refs.last();
        if refers_from_outside(d, r) && r.file == f {
            us.push(UsageView { line: r.line, context: r.context })
        } else {
            us
        }
    }
}

/// The evidence of use of `d`: one entry for each file that uses it, holding
/// the occurrences in that file.
pub open spec fn usage_groups(d: DefinitionView, refs: Seq<ReferenceView>) -> Seq<ElementUsageView> {
    usage_files(d, refs).map_values(
        |f: Seq<char>| ElementUsageView { file: f, usages: usages_in_file(d, refs, f) },
    )
}

/// How `d` is reported: evidence of use is attached exactly when it is used.
pub open spec fn info_of(d: DefinitionView, refs: Seq<ReferenceView>) -> ElementInfoView {
    ElementInfoView {
        name: d.name,
        element_type: d.element_type,
        definition_files: seq![d.file],
        usages: if referenced_outside(d, refs) {
            Some(usage_groups(d, refs))
        } else {
            None
        },
    }
}

/// The reports of the definitions in `defs` that are not suppressed and whose
/// use from outside their file is `used`, in order.
pub open spec fn classified(defs: Seq<DefinitionView>, refs: Seq<ReferenceView>, used: bool) -> Seq<
    ElementInfoView,
>
    decreases defs.len(),
{
    if defs.len() == 0 {
        Seq::empty()
    } else {
        let rest = classified(defs.drop_last(), refs, used);
        let d = defs.last();
        if !d.should_ignore && referenced_outside(d, refs) == used {
            rest.push(info_of(d, refs))
        } else {
            rest
        }
    }
}

/// A definition is used exactly when some file other than its own uses it.
pub proof fn lemma_usage_files_nonempty(d: DefinitionView, refs: Seq<ReferenceView>)
    ensures
        usage_files(d, refs).len() > 0 <==> referenced_outside(d, refs),
    decreases refs.len(),
{
    if refs.len() > 0 {
        let init = refs.drop_last();
        lemma_usage_files_nonempty(d, init);
        if referenced_outside(d, init) {
            let i = choose|i: int| 0 <= i < init.len() && refers_from_outside(d, #[trigger] init[i]);
            assert(refs[i] == init[i]);
        }
        if referenced_outside(d, refs) && !refers_from_outside(d, refs.last()) {
            let i = choose|i: int| 0 <= i < refs.len() && refers_from_outside(d, #[trigger] refs[i]);
            assert(init[i] == refs[i]);
        }
        if refers_from_outside(d, refs.last()) {
            assert(refers_from_outside(d, refs[refs.len() - 1]));
        }
    }
}

/// Whether `files` holds `f`.
fn holds_file(files: &Vec<String>, f: &String) -> (r: bool)
    ensures
        r == string_views(files@).contains(f@),
{
    let mut i: usize = 0;
    while i < files.len()
        invariant
            i <= files.len(),
            forall|j: int| 0 <= j < i ==> files@[j]@ != f@,
        decreases files.len() - i,
    {
        if files[i] == *f {
            assert(string_views(files@)[i as int] == f@);
            return true;
        }
        i = i + 1;
    }
    assert(!string_views(files@).contains(f@)) by {
        if string_views(files@).contains(f@) {
            let j = choose|j: int| 0 <= j < files@.len() && string_views(files@)[j] == f@;
            assert(files@[j]@ == f@);
        }
    }
    false
}

/// Whether `r` is an occurrence of the name of `d` outside the file of `d`.
fn is_outside_reference(d: &ElementDefinition, r: &ElementReference) -> (b: bool)
    ensures
        b == refers_from_outside(d@, r@),
{
    r.name == d.name && r.file != d.file
}

/// Returns the files, other than its own, in which the name of `d` occurs.
fn usage_files_of(d: &ElementDefinition, refs: &Vec<ElementReference>) -> (r: Vec<String>)
    ensures
        string_views(r@) == usage_files(d@, reference_views(refs@)),
{
    let ghost all = reference_views(refs@);
    let mut files: Vec<String> = Vec::new();
    let mut i: usize = 0;
    assert(string_views(files@) =~= usage_files(d@, all.subrange(0, 0)));
    while i < refs.len()
        invariant
            i <= refs.len(),
            all == reference_views(refs@),
            string_views(files@) == usage_files(d@, all.subrange(0, i as int)),
        decreases refs.len() - i,
    {
        let r = &refs[i];
        assert(all.subrange(0, i + 1).drop_last() =~= all.subrange(0, i as int));
        assert(all.subrange(0, i + 1).last() == r@);
        if is_outside_reference(d, r) && !holds_file(&files, &r.file) {
            files.push(r.file.clone());
            assert(string_views(files@) =~= usage_files(d@, all.subrange(0, i + 1)));
        }
        i = i + 1;
    }
    assert(all.subrange(0, i as int) =~= all);
    files
}

/// Returns the occurrences of the name of `d` in file `f`, other than its own.
fn usages_in(d: &ElementDefinition, refs: &Vec<ElementReference>, f: &String) -> (r: Vec<Usage>)
    ensures
        usage_views(r@) == usages_in_file(d@, reference_views(refs@), f@),
{
    let ghost all = reference_views(refs@);
    let mut us: Vec<Usage> = Vec::new();
    let mut i: usize = 0;
    assert(usage_views(us@) =~= usages_in_file(d@, all.subrange(0, 0), f@));
    while i < refs.len()
        invariant
            i <= refs.len(),
            all == reference_views(refs@),
            usage_views(us@) == usages_in_file(d@, all.subrange(0, i as int), f@),
        decreases refs.len() - i,
    {
        let r = &refs[i];
        assert(all.subrange(0, i + 1).drop_last() =~= all.subrange(0, i as int));
        assert(all.subrange(0, i + 1).last() == r@);
        if is_outside_reference(d, r) && r.file == *f {
            us.push(Usage { line: r.line, context: r.context.clone() });
        }
        i = i + 1;
        assert(usage_views(us@) =~= usages_in_file(
            d@,
            all.subrange(0, i as int),
            f@,
        ));
    }
    assert(all.subrange(0, i as int) =~= all);
    us
}

/// Returns the evidence of use of `d`, one entry for each file that uses it.
fn usage_groups_of(d: &ElementDefinition, refs: &Vec<ElementReference>) -> (r: Vec<ElementUsage>)
    ensures
        usage_entry_views(r@) == usage_groups(d@, reference_views(refs@)),
{
    let files = usage_files_of(d, refs);
    let ghost want = usage_groups(d@, reference_views(refs@));
    let mut groups: Vec<ElementUsage> = Vec::new();
    let mut i: usize = 0;
    assert(string_views(files@).len() == files.len());
    while i < files.len()
        invariant
            i <= files.len(),
            want == usage_groups(d@, reference_views(refs@)),
            string_views(files@) == usage_files(d@, reference_views(refs@)),
            want.len() == files.len(),
            groups.len() == i,
            usage_entry_views(groups@) == want.subrange(0, i as int),
        decreases files.len() - i,
    {
        let f = &files[i];
        let usages = usages_in(d, refs, f);
        assert(string_views(files@)[i as int] == f@);
        assert(want[i as int] == ElementUsageView {
            file: f@,
            usages: usages_in_file(d@, reference_views(refs@), f@),
        });
        let g = ElementUsage { file: f.clone(), usages };
        assert(g@ == want[i as int]);
        groups.push(g);
        i = i + 1;
        assert(usage_entry_views(groups@) =~= want.subrange(0, i as int));
    }
    assert(want.subrange(0, i as int) =~= want);
    groups
}

/// Returns the report of `d`, with its evidence of use when it is used.
pub fn info_of_definition(d: &ElementDefinition, refs: &Vec<ElementReference>) -> (r: ElementInfo)
    ensures
        r@ == info_of(d@, reference_views(refs@)),
{
    proof {
        lemma_usage_files_nonempty(d@, reference_views(refs@));
    }
    let groups = usage_groups_of(d, refs);
    let mut files: Vec<String> = Vec::new();
    files.push(d.file.clone());
    assert(string_views(files@) =~= seq![d.file@]);
    assert(usage_entry_views(groups@).len() == groups.len());
    let usages = if groups.len() > 0 {
        Some(groups)
    } else {
        None
    };
    ElementInfo { name: d.name.clone(), element_type: d.element_type, definition_files: files, usages }
}

/// Classifies each definition that is not suppressed: returns the reports of
/// the unused definitions and those of the used ones, each in the order of
/// `definitions`.
pub fn analyze_usage(definitions: &Vec<ElementDefinition>, references: &Vec<ElementReference>) -> (r:
    (Vec<ElementInfo>, Vec<ElementInfo>))
    ensures
        info_views(r.0@) == classified(
            definition_views(definitions@),
            reference_views(references@),
            false,
        ),
        info_views(r.1@) == classified(
            definition_views(definitions@),
            reference_views(references@),
            true,
        ),
{
    let ghost defs = definition_views(definitions@);
    let ghost refs = reference_views(references@);
    let mut unused: Vec<ElementInfo> = Vec::new();
    let mut used: Vec<ElementInfo> = Vec::new();
    let mut i: usize = 0;
    assert(info_views(unused@) =~= classified(defs.subrange(0, 0), refs, false));
    assert(info_views(used@) =~= classified(defs.subrange(0, 0), refs, true));
    while i < definitions.len()
        invariant
            i <= definitions.len(),
            defs == definition_views(definitions@),
            refs == reference_views(references@),
            info_views(unused@) == classified(defs.subrange(0, i as int), refs, false),
            info_views(used@) == classified(defs.subrange(0, i as int), refs, true),
        decreases definitions.len() - i,
    {
        let d = &definitions[i];
        assert(defs.subrange(0, i + 1).drop_last() =~= defs.subrange(0, i as int));
        assert(defs.subrange(0, i + 1).last() == d@);
        if !d.should_ignore {
            let info = info_of_definition(d, references);
            if info.usages.is_some() {
                used.push(info);
            } else {
                unused.push(info);
            }
        }
        i = i + 1;
        assert(info_views(unused@) =~= classified(defs.subrange(0, i as int), refs, false));
        assert(info_views(used@) =~= classified(defs.subrange(0, i as int), refs, true));
    }
    assert(defs.subrange(0, i as int) =~= defs);
    (unused, used)
}

} // verus!
