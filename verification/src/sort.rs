//! Sorting rows into the order of a view, and why that order leaves no
//! choice.

use crate::row::{
    lemma_row_before_asymmetric, lemma_row_before_irreflexive, lemma_row_before_total,
    lemma_row_before_transitive, row_before, row_precedes, rows_view, same_identity,
    strictly_sorted, DisplayRow, RowView, SortKey,
};
use vstd::multiset::{lemma_multiset_empty_len, Multiset};
use vstd::prelude::*;
use vstd::seq_lib::{to_multiset_build, to_multiset_insert};

verus! {

broadcast use {
    vstd::multiset::group_multiset_axioms,
    vstd::seq_lib::to_multiset_len,
};

/// The number of processes that a row stands for.
pub open spec fn row_members(row: RowView) -> nat {
    match row {
        RowView::Leaf(_) => 1,
        RowView::Group(group) => group.count,
    }
}

/// The number of processes that the rows stand for, all together.
pub open spec fn member_total(rows: Seq<RowView>) -> nat
    decreases rows.len(),
{
    if rows.len() == 0 {
        0
    } else {
        member_total(rows.drop_last()) + row_members(rows.last())
    }
}

/// No two rows stand for the same process or the same command.
pub open spec fn distinct_identities(rows: Seq<RowView>) -> bool {
    forall|i: int, j: int|
        0 <= i < rows.len() && 0 <= j < rows.len() && i != j ==> !same_identity(
            #[trigger] rows[i],
            #[trigger] rows[j],
        )
}

proof fn lemma_empty_to_multiset(rows: Seq<RowView>)
    requires
        rows.len() == 0,
    ensures
        rows.to_multiset() == Multiset::<RowView>::empty(),
{
    assert(rows.to_multiset().len() == 0);
    lemma_multiset_empty_len(rows.to_multiset());
}

/// Replacing one row changes the total by the difference of the two rows.
pub proof fn lemma_member_total_update(rows: Seq<RowView>, i: int, row: RowView)
    requires
        0 <= i < rows.len(),
    ensures
        member_total(rows.update(i, row)) + row_members(rows[i]) == member_total(rows)
            + row_members(row),
    decreases rows.len(),
{
    let updated = rows.update(i, row);
    if i == rows.len() - 1 {
        assert(updated.drop_last() =~= rows.drop_last());
    } else {
        assert(updated.drop_last() =~= rows.drop_last().update(i, row));
        lemma_member_total_update(rows.drop_last(), i, row);
    }
}

proof fn lemma_member_total_insert(rows: Seq<RowView>, i: int, row: RowView)
    requires
        0 <= i <= rows.len(),
    ensures
        member_total(rows.insert(i, row)) == member_total(rows) + row_members(row),
    decreases rows.len(),
{
    let inserted = rows.insert(i, row);
    if i == rows.len() {
        assert(inserted.drop_last() =~= rows);
    } else {
        assert(inserted.drop_last() =~= rows.drop_last().insert(i, row));
        lemma_member_total_insert(rows.drop_last(), i, row);
    }
}

/// A strictly sorted sequence is fixed by the rows that occur in it: two
/// such sequences with the same rows are the same sequence.
pub proof fn lemma_sorted_rows_unique(
    s: Seq<RowView>,
    t: Seq<RowView>,
    key: SortKey,
    descending: bool,
)
    requires
        strictly_sorted(s, key, descending),
        strictly_sorted(t, key, descending),
        forall|r: RowView| s.contains(r) <==> t.contains(r),
    ensures
        s == t,
    decreases s.len(),
{
    if s.len() == 0 {
        if t.len() > 0 {
            assert(t.contains(t[0]));
        }
        assert(s =~= t);
    } else {
        assert(s.contains(s[0]));
        let k = choose|k: int| 0 <= k < t.len() && t[k] == s[0];
        assert(t.contains(t[0]));
        let m = choose|m: int| 0 <= m < s.len() && s[m] == t[0];
        if k > 0 {
            if m > 0 {
                lemma_row_before_asymmetric(key, descending, s[0], s[m]);
            } else {
                lemma_row_before_irreflexive(key, descending, t[0]);
            }
        }
        assert(s[0] == t[0]);
        let s1 = s.drop_first();
        let t1 = t.drop_first();
        assert forall|r: RowView| s1.contains(r) <==> t1.contains(r) by {
            if s1.contains(r) {
                let i = choose|i: int| 0 <= i < s1.len() && s1[i] == r;
                assert(s[i + 1] == r);
                assert(s.contains(r));
                let j = choose|j: int| 0 <= j < t.len() && t[j] == r;
                if j == 0 {
                    lemma_row_before_irreflexive(key, descending, s[0]);
                }
                assert(t1[j - 1] == r);
            }
            if t1.contains(r) {
                let i = choose|i: int| 0 <= i < t1.len() && t1[i] == r;
                assert(t[i + 1] == r);
                assert(t.contains(r));
                let j = choose|j: int| 0 <= j < s.len() && s[j] == r;
                if j == 0 {
                    lemma_row_before_irreflexive(key, descending, t[0]);
                }
                assert(s1[j - 1] == r);
            }
        }
        assert(strictly_sorted(s1, key, descending)) by {
            assert forall|i: int, j: int| 0 <= i < j < s1.len() implies row_before(
                key,
                descending,
                #[trigger] s1[i],
                #[trigger] s1[j],
            ) by {
                assert(row_before(key, descending, s[i + 1], s[j + 1]));
            }
        }
        assert(strictly_sorted(t1, key, descending)) by {
            assert forall|i: int, j: int| 0 <= i < j < t1.len() implies row_before(
                key,
                descending,
                #[trigger] t1[i],
                #[trigger] t1[j],
            ) by {
                assert(row_before(key, descending, t[i + 1], t[j + 1]));
            }
        }
        lemma_sorted_rows_unique(s1, t1, key, descending);
        assert(s =~= seq![s[0]] + s1);
        assert(t =~= seq![t[0]] + t1);
    }
}

/// Sorts rows that stand for pairwise different things: each row is put
/// into its place among those already sorted, found by binary search.
pub fn sort_rows(rows: Vec<DisplayRow>, key: SortKey, descending: bool) -> (sorted: Vec<
    DisplayRow,
>)
    requires
        distinct_identities(rows_view(rows@)),
    ensures
        strictly_sorted(rows_view(sorted@), key, descending),
        rows_view(sorted@).to_multiset() == rows_view(rows@).to_multiset(),
        member_total(rows_view(sorted@)) == member_total(rows_view(rows@)),
        sorted.len() == rows.len(),
{
    let ghost all = rows_view(rows@);
    let mut rest = rows;
    let mut sorted: Vec<DisplayRow> = Vec::new();
    proof {
        lemma_empty_to_multiset(rows_view(sorted@));
        assert(rows_view(sorted@).to_multiset().add(all.to_multiset()) =~= all.to_multiset());
    }
    while rest.len() > 0
        invariant
            strictly_sorted(rows_view(sorted@), key, descending),
            distinct_identities(rows_view(sorted@)),
            distinct_identities(rows_view(rest@)),
            forall|i: int, j: int|
                0 <= i < sorted.len() && 0 <= j < rest.len() ==> !same_identity(
                    #[trigger] rows_view(sorted@)[i],
                    #[trigger] rows_view(rest@)[j],
                ),
            rows_view(sorted@).to_multiset().add(rows_view(rest@).to_multiset())
                == all.to_multiset(),
            member_total(rows_view(sorted@)) + member_total(rows_view(rest@)) == member_total(
                all,
            ),
            sorted.len() + rest.len() == all.len(),
        decreases rest.len(),
    {
        let ghost before = rows_view(sorted@);
        let ghost pending = rows_view(rest@);
        let row = rest.pop().unwrap();
        proof {
            assert(rows_view(rest@) =~= pending.drop_last());
            assert(row@ == pending.last());
            assert(pending =~= pending.drop_last().push(row@));
            to_multiset_build(pending.drop_last(), row@);
        }
        let mut lo: usize = 0;
        let mut hi: usize = sorted.len();
        while lo < hi
            invariant
                lo <= hi <= sorted.len(),
                before == rows_view(sorted@),
                strictly_sorted(before, key, descending),
                forall|i: int| 0 <= i < before.len() ==> !same_identity(#[trigger] before[i], row@),
                forall|i: int| 0 <= i < lo ==> row_before(key, descending, #[trigger] before[i], row@),
                forall|i: int|
                    hi <= i < before.len() ==> row_before(key, descending, row@, #[trigger] before[i]),
            decreases hi - lo,
        {
            let mid = lo + (hi - lo) / 2;
            if row_precedes(key, descending, &sorted[mid], &row) {
                proof {
                    assert forall|i: int| 0 <= i < mid + 1 implies row_before(
                        key,
                        descending,
                        #[trigger] before[i],
                        row@,
                    ) by {
                        if i < mid {
                            lemma_row_before_transitive(
                                key,
                                descending,
                                before[i],
                                before[mid as int],
                                row@,
                            );
                        }
                    }
                }
                lo = mid + 1;
            } else {
                proof {
                    lemma_row_before_total(key, descending, before[mid as int], row@);
                    assert forall|i: int| mid <= i < before.len() implies row_before(
                        key,
                        descending,
                        row@,
                        #[trigger] before[i],
                    ) by {
                        if i > mid {
                            lemma_row_before_transitive(
                                key,
                                descending,
                                row@,
                                before[mid as int],
                                before[i],
                            );
                        }
                    }
                }
                hi = mid;
            }
        }
        sorted.insert(lo, row);
        proof {
            let after = rows_view(sorted@);
            assert(after =~= before.insert(lo as int, row@));
            to_multiset_insert(before, lo as int, row@);
            lemma_member_total_insert(before, lo as int, row@);
            assert(after.to_multiset().add(rows_view(rest@).to_multiset()) =~= all.to_multiset());
        }
    }
    proof {
        lemma_empty_to_multiset(rows_view(rest@));
        assert(rows_view(sorted@).to_multiset().add(rows_view(rest@).to_multiset())
            =~= rows_view(sorted@).to_multiset());
    }
    sorted
}

} // verus!
