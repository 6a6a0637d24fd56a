//! Properties that relate the engine's functions to one another, stated over
//! the specifications that their contracts use.

use vstd::prelude::*;

use crate::definitions::{binding_kind, component_wrapper_call, found};
use crate::detector::unsuppressed_count;
use crate::files::{excluded_by, is_source_path, selected};
use crate::resolver::{classified, info_of, referenced_outside, refers_from_outside};
use crate::stats::{
    count_of_type, lemma_count_bound, lemma_counts_partition, lemma_rows_total_concat, rows_total,
    stats_row, stats_table,
};
use crate::syntax::Expr;
use crate::text::{
    camel_case, constant_case, has_infix, ignore_marker, line_at, nth_line, pascal_case, trimmed,
};
use crate::types::{
    DefinitionView, DetectionStats, DetectionTypes, ElementInfoView, ElementType, ReferenceView,
};

verus! {

/// The definitions of `defs` that are not suppressed, in order.
pub open spec fn unsuppressed(defs: Seq<DefinitionView>) -> Seq<DefinitionView>
    decreases defs.len(),
{
    if defs.len() == 0 {
        Seq::empty()
    } else if defs.last().should_ignore {
        unsuppressed(defs.drop_last())
    } else {
        unsuppressed(defs.drop_last()).push(defs.last())
    }
}

/// Suppressed definitions are invisible: the reports are those of the
/// definitions that are not suppressed, and each report is the report of one
/// of them.
pub proof fn law_suppressed_definitions_are_not_reported(
    defs: Seq<DefinitionView>,
    refs: Seq<ReferenceView>,
    used: bool,
)
    ensures
        classified(defs, refs, used) == classified(unsuppressed(defs), refs, used),
        forall|k: int|
            0 <= k < classified(defs, refs, used).len() ==> exists|i: int|
                0 <= i < defs.len() && !defs[i].should_ignore && #[trigger] classified(
                    defs,
                    refs,
                    used,
                )[k] == info_of(defs[i], refs),
    decreases defs.len(),
{
    if defs.len() > 0 {
        let init = defs.drop_last();
        law_suppressed_definitions_are_not_reported(init, refs, used);
        let c = classified(defs, refs, used);
        let ci = classified(init, refs, used);
        if !defs.last().should_ignore {
            assert(unsuppressed(defs).drop_last() =~= unsuppressed(init));
        }
        assert forall|k: int| 0 <= k < c.len() implies exists|i: int|
            0 <= i < defs.len() && !defs[i].should_ignore && #[trigger] c[k] == info_of(
                defs[i],
                refs,
            ) by {
            if k < ci.len() {
                let i = choose|i: int|
                    0 <= i < init.len() && !init[i].should_ignore && #[trigger] ci[k] == info_of(
                        init[i],
                        refs,
                    );
                assert(defs[i] == init[i]);
                assert(c[k] == ci[k]);
            } else {
                assert(defs[defs.len() - 1] == defs.last());
            }
        }
    }
}

/// Every report among the used carries evidence of use, and no report among
/// the unused does.
pub proof fn lemma_reports_carry_evidence(defs: Seq<DefinitionView>, refs: Seq<ReferenceView>)
    ensures
        forall|k: int|
            0 <= k < classified(defs, refs, true).len() ==> (#[trigger] classified(
                defs,
                refs,
                true,
            )[k]).usages is Some,
        forall|k: int|
            0 <= k < classified(defs, refs, false).len() ==> (#[trigger] classified(
                defs,
                refs,
                false,
            )[k]).usages is None,
    decreases defs.len(),
{
    if defs.len() > 0 {
        lemma_reports_carry_evidence(defs.drop_last(), refs);
    }
}

/// A report of a definition that is not suppressed is among the reports.
proof fn lemma_unsuppressed_reported(defs: Seq<DefinitionView>, refs: Seq<ReferenceView>, i: int)
    requires
        0 <= i < defs.len(),
        !defs[i].should_ignore,
    ensures
        classified(defs, refs, referenced_outside(defs[i], refs)).contains(info_of(defs[i], refs)),
    decreases defs.len(),
{
    let w = referenced_outside(defs[i], refs);
    let c = classified(defs, refs, w);
    if i == defs.len() - 1 {
        assert(c[c.len() - 1] == info_of(defs[i], refs));
    } else {
        let init = defs.drop_last();
        assert(init[i] == defs[i]);
        lemma_unsuppressed_reported(init, refs, i);
        let ci = classified(init, refs, w);
        let k = choose|k: int| 0 <= k < ci.len() && ci[k] == info_of(defs[i], refs);
        assert(c[k] == ci[k]);
    }
}

/// A definition that is not suppressed is reported as used exactly when some
/// reference to its name occurs in a file other than its own, and as unused
/// otherwise.
pub proof fn law_used_iff_referenced_elsewhere(
    defs: Seq<DefinitionView>,
    refs: Seq<ReferenceView>,
    i: int,
)
    requires
        0 <= i < defs.len(),
        !defs[i].should_ignore,
    ensures
        classified(defs, refs, true).contains(info_of(defs[i], refs)) <==> (exists|j: int|
            0 <= j < refs.len() && refs[j].name == defs[i].name && refs[j].file != defs[i].file),
        classified(defs, refs, false).contains(info_of(defs[i], refs)) <==> !(exists|j: int|
            0 <= j < refs.len() && refs[j].name == defs[i].name && refs[j].file != defs[i].file),
{
    let d = defs[i];
    let e = info_of(d, refs);
    lemma_unsuppressed_reported(defs, refs, i);
    lemma_reports_carry_evidence(defs, refs);
    assert((exists|j: int|
        0 <= j < refs.len() && refs[j].name == d.name && refs[j].file != d.file)
        <==> referenced_outside(d, refs)) by {
        if referenced_outside(d, refs) {
            let j = choose|j: int| 0 <= j < refs.len() && refers_from_outside(d, #[trigger] refs[j]);
            assert(refs[j].name == d.name && refs[j].file != d.file);
        }
        if exists|j: int| 0 <= j < refs.len() && refs[j].name == d.name && refs[j].file != d.file {
            let j = choose|j: int|
                0 <= j < refs.len() && refs[j].name == d.name && refs[j].file != d.file;
            assert(refers_from_outside(d, refs[j]));
        }
    }
    if classified(defs, refs, true).contains(e) {
        let k = choose|k: int|
            0 <= k < classified(defs, refs, true).len() && classified(defs, refs, true)[k] == e;
        assert(classified(defs, refs, true)[k].usages is Some);
    }
    if classified(defs, refs, false).contains(e) {
        let k = choose|k: int|
            0 <= k < classified(defs, refs, false).len() && classified(defs, refs, false)[k] == e;
        assert(classified(defs, refs, false)[k].usages is None);
    }
}

/// References in a definition's own file never make it used: when every
/// reference to its name lies in its own file, a definition that is not
/// suppressed is reported as unused and not as used.
pub proof fn law_own_file_references_do_not_count(
    defs: Seq<DefinitionView>,
    refs: Seq<ReferenceView>,
    i: int,
)
    requires
        0 <= i < defs.len(),
        !defs[i].should_ignore,
        forall|j: int|
            0 <= j < refs.len() && #[trigger] refs[j].name == defs[i].name ==> refs[j].file
                == defs[i].file,
    ensures
        classified(defs, refs, false).contains(info_of(defs[i], refs)),
        !classified(defs, refs, true).contains(info_of(defs[i], refs)),
{
    law_used_iff_referenced_elsewhere(defs, refs, i);
}

/// A declaration on the line after a line that, trimmed, is the suppression
/// marker is suppressed, so adding its definition changes no report.
pub proof fn law_marker_line_suppresses(
    name: Seq<char>,
    kind: ElementType,
    file: Seq<char>,
    text: Seq<char>,
    pos: usize,
    defs: Seq<DefinitionView>,
    refs: Seq<ReferenceView>,
    used: bool,
)
    requires
        line_at(text, pos as int) > 0,
        trimmed(nth_line(text, (line_at(text, pos as int) - 1) as nat)) == ignore_marker(),
    ensures
        found(name, kind, file, text, pos).should_ignore,
        classified(defs.push(found(name, kind, file, text, pos)), refs, used) == classified(
            defs,
            refs,
            used,
        ),
{
    assert(defs.push(found(name, kind, file, text, pos)).drop_last() =~= defs);
}

/// A declaration whose own line holds the suppression marker is suppressed, so
/// adding its definition changes no report.
pub proof fn law_inline_marker_suppresses(
    name: Seq<char>,
    kind: ElementType,
    file: Seq<char>,
    text: Seq<char>,
    pos: usize,
    defs: Seq<DefinitionView>,
    refs: Seq<ReferenceView>,
    used: bool,
)
    requires
        has_infix(nth_line(text, line_at(text, pos as int)), ignore_marker()),
    ensures
        found(name, kind, file, text, pos).should_ignore,
        classified(defs.push(found(name, kind, file, text, pos)), refs, used) == classified(
            defs,
            refs,
            used,
        ),
{
    assert(defs.push(found(name, kind, file, text, pos)).drop_last() =~= defs);
}

/// A source file that an exclusion pattern matches is not scanned for
/// definitions, but is still scanned for references.
pub proof fn law_excluded_files_still_refer(
    paths: Seq<Seq<char>>,
    patterns: Seq<Seq<char>>,
    p: Seq<char>,
)
    requires
        paths.contains(p),
        is_source_path(p),
        excluded_by(p, patterns),
    ensures
        !selected(paths, patterns, true).contains(p),
        selected(paths, patterns, false).contains(p),
    decreases paths.len(),
{
    lemma_selected_members(paths, patterns, true);
    if selected(paths, patterns, true).contains(p) {
        let k = choose|k: int|
            0 <= k < selected(paths, patterns, true).len() && selected(paths, patterns, true)[k]
                == p;
        assert(!excluded_by(selected(paths, patterns, true)[k], patterns));
    }
    let init = paths.drop_last();
    if paths.last() == p {
        let s = selected(paths, patterns, false);
        assert(s[s.len() - 1] == p);
    } else {
        let j = choose|j: int| 0 <= j < paths.len() && paths[j] == p;
        assert(init[j] == p);
        law_excluded_files_still_refer(init, patterns, p);
        let si = selected(init, patterns, false);
        let k = choose|k: int| 0 <= k < si.len() && si[k] == p;
        assert(selected(paths, patterns, false)[k] == p);
    }
}

/// Each selected path is a source file, and with exclusion on, no pattern
/// matches it.
proof fn lemma_selected_members(paths: Seq<Seq<char>>, patterns: Seq<Seq<char>>, exclude: bool)
    ensures
        forall|k: int|
            0 <= k < selected(paths, patterns, exclude).len() ==> is_source_path(
                #[trigger] selected(paths, patterns, exclude)[k],
            ) && !(exclude && excluded_by(selected(paths, patterns, exclude)[k], patterns)),
    decreases paths.len(),
{
    if paths.len() > 0 {
        let init = paths.drop_last();
        lemma_selected_members(init, patterns, exclude);
        let s = selected(paths, patterns, exclude);
        let si = selected(init, patterns, exclude);
        assert forall|k: int| 0 <= k < s.len() implies is_source_path(#[trigger] s[k]) && !(exclude
            && excluded_by(s[k], patterns)) by {
            if k < si.len() {
                assert(s[k] == si[k]);
            }
        }
    }
}

/// Naming conventions decide the kind of an exported binding: an arrow
/// function is a component under an upper camel case name and a function
/// under a lower camel case name; anything else that is neither an arrow
/// function nor a component wrapper call is a variable under a constant case
/// name.
pub proof fn law_naming_convention_gating(types: DetectionTypes, name: Seq<char>, init: Expr)
    ensures
        types.components && pascal_case(name) && init is Arrow ==> binding_kind(types, name, init)
            == Some(ElementType::Component),
        types.functions && camel_case(name) && init is Arrow && !(types.components && pascal_case(
            name,
        )) ==> binding_kind(types, name, init) == Some(ElementType::Function),
        types.variables && constant_case(name) && !(init is Arrow) && !component_wrapper_call(init)
            ==> binding_kind(types, name, init) == Some(ElementType::Variable),
{
}

/// The row of one kind holds its counts exactly.
proof fn lemma_row_counts(unused: Seq<ElementInfoView>, used: Seq<ElementInfoView>, t: ElementType)
    requires
        unused.len() + used.len() <= usize::MAX,
    ensures
        rows_total(stats_row(unused, used, t)) == count_of_type(unused, t) + count_of_type(used, t),
        forall|k: int|
            0 <= k < stats_row(unused, used, t).len() ==> (#[trigger] stats_row(unused, used, t)[k]).1.total
                == stats_row(unused, used, t)[k].1.used + stats_row(unused, used, t)[k].1.unused,
{
    lemma_count_bound(unused, t);
    lemma_count_bound(used, t);
    let r = stats_row(unused, used, t);
    let u = count_of_type(unused, t);
    let d = count_of_type(used, t);
    if r.len() > 0 {
        assert(r.drop_last() =~= Seq::<(ElementType, DetectionStats)>::empty());
        assert(rows_total(r.drop_last()) == 0);
        assert(r.last().1.total == u + d);
    } else {
        assert(rows_total(r) == 0);
    }
}

/// The per-kind counts partition the classification: each row's total is its
/// used count plus its unused count, and the totals of the rows add up to the
/// number of classified definitions.
pub proof fn law_kind_totals_add_up(unused: Seq<ElementInfoView>, used: Seq<ElementInfoView>)
    requires
        unused.len() + used.len() <= usize::MAX,
    ensures
        rows_total(stats_table(unused, used)) == unused.len() + used.len(),
        forall|k: int|
            0 <= k < stats_table(unused, used).len() ==> (#[trigger] stats_table(unused, used)[k]).1.total
                == stats_table(unused, used)[k].1.used + stats_table(unused, used)[k].1.unused,
{
    lemma_counts_partition(unused);
    lemma_counts_partition(used);
    lemma_row_counts(unused, used, ElementType::Component);
    lemma_row_counts(unused, used, ElementType::Type);
    lemma_row_counts(unused, used, ElementType::Interface);
    lemma_row_counts(unused, used, ElementType::Function);
    lemma_row_counts(unused, used, ElementType::Variable);
    lemma_row_counts(unused, used, ElementType::Enum);
    let r0 = stats_row(unused, used, ElementType::Component);
    let r1 = stats_row(unused, used, ElementType::Type);
    let r2 = stats_row(unused, used, ElementType::Interface);
    let r3 = stats_row(unused, used, ElementType::Function);
    let r4 = stats_row(unused, used, ElementType::Variable);
    let r5 = stats_row(unused, used, ElementType::Enum);
    lemma_rows_total_concat(r0, r1);
    lemma_rows_total_concat(r0 + r1, r2);
    lemma_rows_total_concat(r0 + r1 + r2, r3);
    lemma_rows_total_concat(r0 + r1 + r2 + r3, r4);
    lemma_rows_total_concat(r0 + r1 + r2 + r3 + r4, r5);
    let t = stats_table(unused, used);
    assert forall|k: int| 0 <= k < t.len() implies (#[trigger] t[k]).1.total == t[k].1.used
        + t[k].1.unused by {
        if k < r0.len() {
            assert(t[k] == r0[k]);
        } else if k < r0.len() + r1.len() {
            assert(t[k] == r1[k - r0.len()]);
        } else if k < r0.len() + r1.len() + r2.len() {
            assert(t[k] == r2[k - r0.len() - r1.len()]);
        } else if k < r0.len() + r1.len() + r2.len() + r3.len() {
            assert(t[k] == r3[k - r0.len() - r1.len() - r2.len()]);
        } else if k < r0.len() + r1.len() + r2.len() + r3.len() + r4.len() {
            assert(t[k] == r4[k - r0.len() - r1.len() - r2.len() - r3.len()]);
        } else {
            assert(t[k] == r5[k - r0.len() - r1.len() - r2.len() - r3.len() - r4.len()]);
        }
    }
}

/// Only unsuppressed definitions count toward the total.
proof fn lemma_unsuppressed_count(defs: Seq<DefinitionView>)
    ensures
        unsuppressed_count(defs) == unsuppressed(defs).len(),
    decreases defs.len(),
{
    if defs.len() > 0 {
        lemma_unsuppressed_count(defs.drop_last());
    }
}

/// Two sets of definitions whose unsuppressed definitions are the same give
/// the same reports and the same total, however each suppressed the rest: a
/// marker on the line before a declaration and a marker on its own line act
/// alike.
pub proof fn law_same_unsuppressed_same_reports(
    defs1: Seq<DefinitionView>,
    defs2: Seq<DefinitionView>,
    refs: Seq<ReferenceView>,
)
    requires
        unsuppressed(defs1) == unsuppressed(defs2),
    ensures
        classified(defs1, refs, true) == classified(defs2, refs, true),
        classified(defs1, refs, false) == classified(defs2, refs, false),
        unsuppressed_count(defs1) == unsuppressed_count(defs2),
{
    law_suppressed_definitions_are_not_reported(defs1, refs, true);
    law_suppressed_definitions_are_not_reported(defs2, refs, true);
    law_suppressed_definitions_are_not_reported(defs1, refs, false);
    law_suppressed_definitions_are_not_reported(defs2, refs, false);
    lemma_unsuppressed_count(defs1);
    lemma_unsuppressed_count(defs2);
}

/// A suppressed declaration of `n` in file `f` is never reported: when no
/// unsuppressed definition has that name and file, no report, used or
/// unused, has name `n` and definition files `[f]`.
pub proof fn law_suppressed_name_not_reported(
    defs: Seq<DefinitionView>,
    refs: Seq<ReferenceView>,
    n: Seq<char>,
    f: Seq<char>,
    used: bool,
)
    requires
        forall|i: int|
            0 <= i < defs.len() && !defs[i].should_ignore ==> !(#[trigger] defs[i].name == n
                && defs[i].file == f),
    ensures
        forall|k: int|
            0 <= k < classified(defs, refs, used).len() ==> !((#[trigger] classified(
                defs,
                refs,
                used,
            )[k]).name == n && classified(defs, refs, used)[k].definition_files == seq![f]),
{
    law_suppressed_definitions_are_not_reported(defs, refs, used);
    let c = classified(defs, refs, used);
    assert forall|k: int| 0 <= k < c.len() implies !((#[trigger] c[k]).name == n
        && c[k].definition_files == seq![f]) by {
        let i = choose|i: int|
            0 <= i < defs.len() && !defs[i].should_ignore && c[k] == info_of(defs[i], refs);
        if c[k].name == n && c[k].definition_files == seq![f] {
            assert(c[k].definition_files[0] == defs[i].file);
            assert(defs[i].name == n && defs[i].file == f);
        }
    }
}

/// File selection in set form: a path is a definition source exactly when it
/// is a listed source file that no pattern matches, and a reference source
/// exactly when it is a listed source file, whatever the patterns.
pub proof fn law_selection_membership(
    paths: Seq<Seq<char>>,
    patterns: Seq<Seq<char>>,
    p: Seq<char>,
)
    ensures
        selected(paths, patterns, true).contains(p) <==> paths.contains(p) && is_source_path(p)
            && !excluded_by(p, patterns),
        selected(paths, patterns, false).contains(p) <==> paths.contains(p) && is_source_path(p),
    decreases paths.len(),
{
    if paths.len() > 0 {
        let init = paths.drop_last();
        law_selection_membership(init, patterns, p);
        assert(paths =~= init.push(paths.last()));
        assert forall|x: bool| #[trigger] selected(paths, patterns, x).contains(p) <==> (
        init.contains(p) || paths.last() == p) && is_source_path(p) && !(x && excluded_by(
            p,
            patterns,
        )) by {
            let si = selected(init, patterns, x);
            let s = selected(paths, patterns, x);
            if si.contains(p) {
                let k = choose|k: int| 0 <= k < si.len() && si[k] == p;
                assert(s[k] == p);
            }
            if s.contains(p) && !si.contains(p) {
                let k = choose|k: int| 0 <= k < s.len() && s[k] == p;
                if k < si.len() {
                    assert(si[k] == p);
                }
            }
            if paths.last() == p && is_source_path(p) && !(x && excluded_by(p, patterns)) {
                assert(s[s.len() - 1] == p);
            }
        }
        assert(selected(paths, patterns, true).contains(p) <==> (init.contains(p) || paths.last()
            == p) && is_source_path(p) && !excluded_by(p, patterns));
        assert(selected(paths, patterns, false).contains(p) <==> (init.contains(p) || paths.last()
            == p) && is_source_path(p));
        assert(paths.contains(p) <==> init.contains(p) || paths.last() == p) by {
            if paths.contains(p) {
                let k = choose|k: int| 0 <= k < paths.len() && paths[k] == p;
                if k < init.len() {
                    assert(init[k] == p);
                }
            }
            if init.contains(p) {
                let k = choose|k: int| 0 <= k < init.len() && init[k] == p;
                assert(paths[k] == p);
            }
            if paths.last() == p {
                assert(paths[paths.len() - 1] == p);
            }
        }
    }
}

} // verus!
