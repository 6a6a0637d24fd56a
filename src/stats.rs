//! Per-kind statistics of a classification, and usage rates.

use vstd::prelude::*;

use crate::types::{info_views, DetectionStats, ElementInfo, ElementInfoView, ElementType};

verus! {

/// The number of reports of kind `t` in `s`.
pub open spec fn count_of_type(s: Seq<ElementInfoView>, t: ElementType) -> nat
    decreases s.len(),
{
    if s.len() == 0 {
        0
    } else {
        count_of_type(s.drop_last(), t) + if s.last().element_type == t { 1nat } else { 0nat }
    }
}

/// The row of kind `t`: present only when some definition of that kind was
/// classified.
pub open spec fn stats_row(unused: Seq<ElementInfoView>, used: Seq<ElementInfoView>, t: ElementType) -> Seq<
    (ElementType, DetectionStats),
> {
    let u = count_of_type(unused, t);
    let d = count_of_type(used, t);
    if u + d > 0 {
        seq![(t, DetectionStats { total: (u + d) as usize, used: d as usize, unused: u as usize })]
    } else {
        Seq::empty()
    }
}

/// The per-kind counts of a classification, one row for each kind that has a
/// classified definition, in the order in which the kinds are declared.
pub open spec fn stats_table(unused: Seq<ElementInfoView>, used: Seq<ElementInfoView>) -> Seq<
    (ElementType, DetectionStats),
> {
    stats_row(unused, used, ElementType::Component) + stats_row(unused, used, ElementType::Type)
        + stats_row(unused, used, ElementType::Interface) + stats_row(
        unused,
        used,
        ElementType::Function,
    ) + stats_row(unused, used, ElementType::Variable) + stats_row(unused, used, ElementType::Enum)
}

/// A kind never counts more reports than there are.
pub proof fn lemma_count_bound(s: Seq<ElementInfoView>, t: ElementType)
    ensures
        count_of_type(s, t) <= s.len(),
    decreases s.len(),
{
    if s.len() > 0 {
        lemma_count_bound(s.drop_last(), t);
    }
}

/// Returns the number of reports of kind `t` in `infos`.
fn count_type(infos: &Vec<ElementInfo>, t: ElementType) -> (r: usize)
    ensures
        r == count_of_type(info_views(infos@), t),
{
    let ghost all = info_views(infos@);
    let mut n: usize = 0;
    let mut i: usize = 0;
    while i < infos.len()
        invariant
            i <= infos.len(),
            all == info_views(infos@),
            n == count_of_type(all.subrange(0, i as int), t),
            n <= i,
        decreases infos.len() - i,
    {
        assert(all.subrange(0, i + 1).drop_last() =~= all.subrange(0, i as int));
        assert(all.subrange(0, i + 1).last() == infos@[i as int]@);
        if infos[i].element_type == t {
            n = n + 1;
        }
        i = i + 1;
    }
    assert(all.subrange(0, i as int) =~= all);
    n
}

/// Appends the row of kind `t` to `rows`.
fn push_row(
    rows: &mut Vec<(ElementType, DetectionStats)>,
    unused: &Vec<ElementInfo>,
    used: &Vec<ElementInfo>,
    t: ElementType,
)
    requires
        unused.len() + used.len() <= usize::MAX,
    ensures
        final(rows)@ == old(rows)@ + stats_row(info_views(unused@), info_views(used@), t),
{
    let u = count_type(unused, t);
    let d = count_type(used, t);
    proof {
        lemma_count_bound(info_views(unused@), t);
        lemma_count_bound(info_views(used@), t);
    }
    if u + d > 0 {
        rows.push((t, DetectionStats { total: u + d, used: d, unused: u }));
        assert(final(rows)@ =~= old(rows)@ + stats_row(info_views(unused@), info_views(used@), t));
    } else {
        assert(final(rows)@ =~= old(rows)@ + stats_row(info_views(unused@), info_views(used@), t));
    }
}

/// Returns the per-kind counts of a classification.
pub fn generate_statistics(unused: &Vec<ElementInfo>, used: &Vec<ElementInfo>) -> (r: Vec<
    (ElementType, DetectionStats),
>)
    requires
        unused.len() + used.len() <= usize::MAX,
    ensures
        r@ == stats_table(info_views(unused@), info_views(used@)),
{
    let mut rows: Vec<(ElementType, DetectionStats)> = Vec::new();
    push_row(&mut rows, unused, used, ElementType::Component);
    push_row(&mut rows, unused, used, ElementType::Type);
    push_row(&mut rows, unused, used, ElementType::Interface);
    push_row(&mut rows, unused, used, ElementType::Function);
    push_row(&mut rows, unused, used, ElementType::Variable);
    push_row(&mut rows, unused, used, ElementType::Enum);
    assert(rows@ =~= stats_table(info_views(unused@), info_views(used@)));
    rows
}

/// The percentage `used / total * 100` rounded half up; 0 when `total` is 0.
pub open spec fn rounded_percent(used: int, total: int) -> int {
    if total == 0 {
        0
    } else {
        (200 * used + total) / (2 * total)
    }
}

/// Returns the share of `total` that `used` is, as a whole percentage rounded
/// half up; 0 when `total` is 0.
pub fn usage_rate(used: usize, total: usize) -> (r: usize)
    requires
        used <= total,
    ensures
        r == rounded_percent(used as int, total as int),
        r <= 100,
{
    if total == 0 {
        return 0;
    }
    let num: u128 = 200 * (used as u128) + (total as u128);
    let den: u128 = 2 * (total as u128);
    let q: u128 = num / den;
    assert(q <= 100) by (nonlinear_arith)
        requires
            q == num / den,
            num == 200 * used + total,
            den == 2 * total,
            used <= total,
            total > 0,
    {
        assert(num < 101 * den);
    }
    q as usize
}

/// The sum of the totals of `rows`.
pub open spec fn rows_total(rows: Seq<(ElementType, DetectionStats)>) -> int
    decreases rows.len(),
{
    if rows.len() == 0 {
        0
    } else {
        rows_total(rows.drop_last()) + rows.last().1.total
    }
}

/// The totals of two lists of rows add up.
pub proof fn lemma_rows_total_concat(
    a: Seq<(ElementType, DetectionStats)>,
    b: Seq<(ElementType, DetectionStats)>,
)
    ensures
        rows_total(a + b) == rows_total(a) + rows_total(b),
    decreases b.len(),
{
    if b.len() > 0 {
        lemma_rows_total_concat(a, b.drop_last());
        assert((a + b).drop_last() =~= a + b.drop_last());
    } else {
        assert(a + b =~= a);
    }
}

/// Every report has exactly one kind.
pub proof fn lemma_counts_partition(s: Seq<ElementInfoView>)
    ensures
        count_of_type(s, ElementType::Component) + count_of_type(s, ElementType::Type)
            + count_of_type(s, ElementType::Interface) + count_of_type(s, ElementType::Function)
            + count_of_type(s, ElementType::Variable) + count_of_type(s, ElementType::Enum)
            == s.len(),
    decreases s.len(),
{
    if s.len() > 0 {
        lemma_counts_partition(s.drop_last());
    }
}

} // verus!
