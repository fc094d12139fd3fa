//! Orderings of listings, and how filtering interacts with them.

use vstd::prelude::*;

use crate::models::{
    ActivityData, ActivityRowData, PhotoData, PhotoRowData, PlantData, PlantRowData,
    rows_as_activities, rows_as_plants,
};

verus! {

/// Lexicographic order on character sequences, by code point; this is the
/// order the storage engine's binary collation gives UTF-8 text.
pub open spec fn str_le(a: Seq<char>, b: Seq<char>) -> bool
    decreases a.len(),
{
    if a.len() == 0 {
        true
    } else if b.len() == 0 {
        false
    } else if (a[0] as u32) < (b[0] as u32) {
        true
    } else if (a[0] as u32) > (b[0] as u32) {
        false
    } else {
        str_le(a.drop_first(), b.drop_first())
    }
}

/// Plant rows in ascending order of name.
pub open spec fn plants_sorted_by_name(s: Seq<PlantRowData>) -> bool {
    forall|i: int, j: int| 0 <= i < j < s.len() ==> str_le(#[trigger] s[i].name, #[trigger] s[j].name)
}

/// Activity rows in ascending order of name.
pub open spec fn activities_sorted_by_name(s: Seq<ActivityRowData>) -> bool {
    forall|i: int, j: int| 0 <= i < j < s.len() ==> str_le(#[trigger] s[i].name, #[trigger] s[j].name)
}

/// Photo rows in ascending order of sort order.
pub open spec fn photos_sorted_by_order(s: Seq<PhotoRowData>) -> bool {
    forall|i: int, j: int| 0 <= i < j < s.len() ==> #[trigger] s[i].sort_order <= #[trigger] s[j].sort_order
}

/// Appending one element extends the filtered sequence by that element
/// exactly when the predicate holds of it.
pub proof fn lemma_filter_push<A>(s: Seq<A>, pred: spec_fn(A) -> bool, x: A)
    ensures
        s.push(x).filter(pred) == if pred(x) {
            s.filter(pred).push(x)
        } else {
            s.filter(pred)
        },
{
    reveal(Seq::filter);
    assert(s.push(x).drop_last() =~= s);
    assert(s.push(x).last() == x);
}

/// An element stands in the filtered sequence exactly when it stands in the
/// sequence and satisfies the predicate.
pub proof fn lemma_filter_membership<A>(s: Seq<A>, pred: spec_fn(A) -> bool, x: A)
    ensures
        s.contains(x) && pred(x) ==> s.filter(pred).contains(x),
        s.filter(pred).contains(x) ==> s.contains(x) && pred(x),
{
    if s.contains(x) && pred(x) {
        let k = choose|k: int| 0 <= k < s.len() && s[k] == x;
        s.lemma_filter_contains(pred, k);
    }
    if s.filter(pred).contains(x) {
        let j = choose|j: int| 0 <= j < s.filter(pred).len() && s.filter(pred)[j] == x;
        s.lemma_filter_pred(pred, j);
        lemma_filter_contained(s, pred, x);
    }
}

/// A sequence every element of which satisfies the predicate is its own
/// filtered sequence.
pub proof fn lemma_filter_all_hold<A>(s: Seq<A>, pred: spec_fn(A) -> bool)
    requires
        forall|i: int| 0 <= i < s.len() ==> pred(#[trigger] s[i]),
    ensures
        s.filter(pred) == s,
    decreases s.len(),
{
    reveal(Seq::filter);
    if s.len() > 0 {
        let dl = s.drop_last();
        assert forall|i: int| 0 <= i < dl.len() implies pred(#[trigger] dl[i]) by {
            assert(dl[i] == s[i]);
        }
        lemma_filter_all_hold(dl, pred);
        assert(pred(s[s.len() - 1]));
        assert(s.filter(pred) =~= s);
    }
}

/// Filtering a second time with the same predicate changes nothing.
pub proof fn lemma_filter_idempotent<A>(s: Seq<A>, pred: spec_fn(A) -> bool)
    ensures
        s.filter(pred).filter(pred) == s.filter(pred),
{
    let f = s.filter(pred);
    assert forall|i: int| 0 <= i < f.len() implies pred(#[trigger] f[i]) by {
        s.lemma_filter_pred(pred, i);
    }
    lemma_filter_all_hold(f, pred);
}

/// Every element of a filtered sequence comes from the sequence.
pub proof fn lemma_filter_contained<A>(s: Seq<A>, pred: spec_fn(A) -> bool, x: A)
    requires
        s.filter(pred).contains(x),
    ensures
        s.contains(x),
    decreases s.len(),
{
    reveal(Seq::filter);
    if s.len() > 0 {
        let dl = s.drop_last();
        if pred(s.last()) && x == s.last() {
            assert(s[s.len() - 1] == x);
        } else {
            if pred(s.last()) {
                let f = dl.filter(pred);
                if f.push(s.last()).contains(x) && x != s.last() {
                    let i = choose|i: int| 0 <= i < f.push(s.last()).len() && f.push(s.last())[i] == x;
                    assert(f[i] == x);
                }
            }
            lemma_filter_contained(dl, pred, x);
            let i = choose|i: int| 0 <= i < dl.len() && dl[i] == x;
            assert(s[i] == x);
        }
    }
}

/// Plants as callers see them, in ascending order of name.
pub open spec fn plant_data_sorted_by_name(s: Seq<PlantData>) -> bool {
    forall|i: int, j: int| 0 <= i < j < s.len() ==> str_le(#[trigger] s[i].name, #[trigger] s[j].name)
}

/// Activities as callers see them, in ascending order of name.
pub open spec fn activity_data_sorted_by_name(s: Seq<ActivityData>) -> bool {
    forall|i: int, j: int| 0 <= i < j < s.len() ==> str_le(#[trigger] s[i].name, #[trigger] s[j].name)
}

/// Photos as callers see them, in ascending order of sort order.
pub open spec fn photo_data_sorted_by_order(s: Seq<PhotoData>) -> bool {
    forall|i: int, j: int| 0 <= i < j < s.len() ==> #[trigger] s[i].sort_order <= #[trigger] s[j].sort_order
}

/// Name-sorted rows stay name-sorted when read as plants.
pub proof fn lemma_rows_as_plants_keeps_order(rows: Seq<PlantRowData>)
    requires
        plants_sorted_by_name(rows),
    ensures
        plant_data_sorted_by_name(rows_as_plants(rows)),
{
    let m = rows_as_plants(rows);
    assert forall|i: int, j: int| 0 <= i < j < m.len() implies str_le(
        #[trigger] m[i].name,
        #[trigger] m[j].name,
    ) by {
        assert(m[i].name == rows[i].name && m[j].name == rows[j].name);
        assert(str_le(rows[i].name, rows[j].name));
    }
}

/// Name-sorted rows stay name-sorted when read as activities.
pub proof fn lemma_rows_as_activities_keeps_order(rows: Seq<ActivityRowData>)
    requires
        activities_sorted_by_name(rows),
    ensures
        activity_data_sorted_by_name(rows_as_activities(rows)),
{
    let m = rows_as_activities(rows);
    assert forall|i: int, j: int| 0 <= i < j < m.len() implies str_le(
        #[trigger] m[i].name,
        #[trigger] m[j].name,
    ) by {
        assert(m[i].name == rows[i].name && m[j].name == rows[j].name);
        assert(str_le(rows[i].name, rows[j].name));
    }
}

/// Filtering keeps the order: a name-sorted plant list stays sorted.
pub proof fn lemma_filter_keeps_plant_data_order(
    s: Seq<PlantData>,
    pred: spec_fn(PlantData) -> bool,
)
    requires
        plant_data_sorted_by_name(s),
    ensures
        plant_data_sorted_by_name(s.filter(pred)),
    decreases s.len(),
{
    reveal(Seq::filter);
    if s.len() > 0 {
        let dl = s.drop_last();
        assert(plant_data_sorted_by_name(dl)) by {
            assert forall|i: int, j: int| 0 <= i < j < dl.len() implies str_le(
                #[trigger] dl[i].name,
                #[trigger] dl[j].name,
            ) by {
                assert(dl[i] == s[i] && dl[j] == s[j]);
            }
        }
        lemma_filter_keeps_plant_data_order(dl, pred);
        if pred(s.last()) {
            let f = dl.filter(pred);
            let g = f.push(s.last());
            assert forall|i: int, j: int| 0 <= i < j < g.len() implies str_le(
                #[trigger] g[i].name,
                #[trigger] g[j].name,
            ) by {
                if j < g.len() - 1 {
                    assert(g[i] == f[i] && g[j] == f[j]);
                } else {
                    assert(g[i] == f[i] && g[j] == s.last());
                    lemma_filter_contained(dl, pred, f[i]);
                    let k = choose|k: int| 0 <= k < dl.len() && dl[k] == f[i];
                    assert(s[k] == f[i]);
                    assert(str_le(s[k].name, s[s.len() - 1].name));
                }
            }
        }
    }
}

/// Filtering keeps the order: a sort-order-sorted photo row sequence stays
/// sorted.
pub proof fn lemma_filter_keeps_photo_order(
    s: Seq<PhotoRowData>,
    pred: spec_fn(PhotoRowData) -> bool,
)
    requires
        photos_sorted_by_order(s),
    ensures
        photos_sorted_by_order(s.filter(pred)),
    decreases s.len(),
{
    reveal(Seq::filter);
    if s.len() > 0 {
        let dl = s.drop_last();
        assert(photos_sorted_by_order(dl)) by {
            assert forall|i: int, j: int| 0 <= i < j < dl.len() implies #[trigger] dl[i].sort_order
                <= #[trigger] dl[j].sort_order by {
                assert(dl[i] == s[i] && dl[j] == s[j]);
            }
        }
        lemma_filter_keeps_photo_order(dl, pred);
        if pred(s.last()) {
            let f = dl.filter(pred);
            let g = f.push(s.last());
            assert forall|i: int, j: int| 0 <= i < j < g.len() implies #[trigger] g[i].sort_order
                <= #[trigger] g[j].sort_order by {
                if j < g.len() - 1 {
                    assert(g[i] == f[i] && g[j] == f[j]);
                } else {
                    assert(g[i] == f[i] && g[j] == s.last());
                    lemma_filter_contained(dl, pred, f[i]);
                    let k = choose|k: int| 0 <= k < dl.len() && dl[k] == f[i];
                    assert(s[k] == f[i]);
                    assert(s[k].sort_order <= s[s.len() - 1].sort_order);
                }
            }
        }
    }
}

/// Filtering keeps the order: a name-sorted activity list stays sorted.
pub proof fn lemma_filter_keeps_activity_data_order(
    s: Seq<ActivityData>,
    pred: spec_fn(ActivityData) -> bool,
)
    requires
        activity_data_sorted_by_name(s),
    ensures
        activity_data_sorted_by_name(s.filter(pred)),
    decreases s.len(),
{
    reveal(Seq::filter);
    if s.len() > 0 {
        let dl = s.drop_last();
        assert(activity_data_sorted_by_name(dl)) by {
            assert forall|i: int, j: int| 0 <= i < j < dl.len() implies str_le(
                #[trigger] dl[i].name,
                #[trigger] dl[j].name,
            ) by {
                assert(dl[i] == s[i] && dl[j] == s[j]);
            }
        }
        lemma_filter_keeps_activity_data_order(dl, pred);
        if pred(s.last()) {
            let f = dl.filter(pred);
            let g = f.push(s.last());
            assert forall|i: int, j: int| 0 <= i < j < g.len() implies str_le(
                #[trigger] g[i].name,
                #[trigger] g[j].name,
            ) by {
                if j < g.len() - 1 {
                    assert(g[i] == f[i] && g[j] == f[j]);
                } else {
                    assert(g[i] == f[i] && g[j] == s.last());
                    lemma_filter_contained(dl, pred, f[i]);
                    let k = choose|k: int| 0 <= k < dl.len() && dl[k] == f[i];
                    assert(s[k] == f[i]);
                    assert(str_le(s[k].name, s[s.len() - 1].name));
                }
            }
        }
    }
}

} // verus!
