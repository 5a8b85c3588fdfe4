//! The view builder: from a snapshot and the view state to the ordered rows.

use crate::record::{
    distinct_pids, lemma_distinct_pids_bound, ProcessRecord, ProcessSnapshot, RecordView,
};
use crate::row::{
    key_lt, row_command, rows_view, same_identity, strictly_sorted, tie_lt, DisplayRow, GroupRow,
    GroupView, RowView, SortKey,
};
use crate::sort::{
    distinct_identities, lemma_member_total_update, lemma_sorted_rows_unique, member_total,
    sort_rows,
};
use crate::text::{chars_contain, chars_of, lemma_contains_empty, text_contains};
use vstd::prelude::*;
use vstd::seq_lib::{
    to_multiset_build, to_multiset_contains, to_multiset_len, to_multiset_remove,
};

verus! {

broadcast use {vstd::multiset::group_multiset_axioms, vstd::seq_lib::to_multiset_len};

/// What the user has chosen to see, and where in the list they are. The
/// filter is held as the characters typed.
#[derive(Debug, PartialEq, Eq)]
pub struct ViewState {
    pub sort_key: SortKey,
    pub descending: bool,
    pub grouping: bool,
    pub filter: Vec<char>,
    pub scroll_offset: usize,
    pub selected: usize,
}

/// The mathematical value of a [`ViewState`].
pub struct ViewStateView {
    pub sort_key: SortKey,
    pub descending: bool,
    pub grouping: bool,
    pub filter: Seq<char>,
    pub scroll_offset: nat,
    pub selected: nat,
}

impl View for ViewState {
    type V = ViewStateView;

    open spec fn view(&self) -> ViewStateView {
        ViewStateView {
            sort_key: self.sort_key,
            descending: self.descending,
            grouping: self.grouping,
            filter: self.filter@,
            scroll_offset: self.scroll_offset as nat,
            selected: self.selected as nat,
        }
    }
}

/// The records whose command contains `filter`.
pub open spec fn passes_filter(filter: Seq<char>) -> spec_fn(RecordView) -> bool {
    |record: RecordView| text_contains(record.command, filter)
}

/// The records whose command is exactly `command`.
pub open spec fn has_command(command: Seq<char>) -> spec_fn(RecordView) -> bool {
    |record: RecordView| record.command == command
}

/// Weighs every record as one.
pub open spec fn one_each() -> spec_fn(RecordView) -> nat {
    |record: RecordView| 1nat
}

/// Weighs a record by its processor share.
pub open spec fn cpu_share() -> spec_fn(RecordView) -> nat {
    |record: RecordView| record.cpu as nat
}

/// Weighs a record by its memory share.
pub open spec fn mem_share() -> spec_fn(RecordView) -> nat {
    |record: RecordView| record.mem as nat
}

/// The sum of `weight` over the records that satisfy `chosen`.
pub open spec fn total_where(
    records: Seq<RecordView>,
    chosen: spec_fn(RecordView) -> bool,
    weight: spec_fn(RecordView) -> nat,
) -> nat
    decreases records.len(),
{
    if records.len() == 0 {
        0
    } else {
        total_where(records.drop_last(), chosen, weight) + if chosen(records.last()) {
            weight(records.last())
        } else {
            0
        }
    }
}

/// The number of records whose command contains `filter`.
pub open spec fn matching_count(records: Seq<RecordView>, filter: Seq<char>) -> nat {
    total_where(records, passes_filter(filter), one_each())
}

/// The number of records whose command is `command`.
pub open spec fn command_count(records: Seq<RecordView>, command: Seq<char>) -> nat {
    total_where(records, has_command(command), one_each())
}

/// The group row of `command`: how many records have that command, and the
/// sums of their processor and memory shares.
pub open spec fn group_of(records: Seq<RecordView>, command: Seq<char>) -> GroupView {
    GroupView {
        command,
        count: command_count(records, command),
        cpu: total_where(records, has_command(command), cpu_share()),
        mem: total_where(records, has_command(command), mem_share()),
    }
}

/// The number of different commands among the records that pass the filter.
pub open spec fn group_total(records: Seq<RecordView>, filter: Seq<char>) -> nat
    decreases records.len(),
{
    if records.len() == 0 {
        0
    } else {
        let earlier = records.drop_last();
        let command = records.last().command;
        group_total(earlier, filter) + if text_contains(command, filter) && command_count(
            earlier,
            command,
        ) == 0 {
            1nat
        } else {
            0nat
        }
    }
}

/// The number of rows of the view.
pub open spec fn row_total(records: Seq<RecordView>, grouping: bool, filter: Seq<char>) -> nat {
    if grouping {
        group_total(records, filter)
    } else {
        matching_count(records, filter)
    }
}

/// `row` belongs to the view. Without grouping the rows are the records
/// whose command contains the filter. With grouping there is one row for
/// each command that contains the filter and that some record has; it
/// counts and sums all records of that command.
pub open spec fn expected_row(
    records: Seq<RecordView>,
    grouping: bool,
    filter: Seq<char>,
    row: RowView,
) -> bool {
    match row {
        RowView::Leaf(record) => {
            &&& !grouping
            &&& records.contains(record)
            &&& text_contains(record.command, filter)
        },
        RowView::Group(group) => {
            &&& grouping
            &&& text_contains(group.command, filter)
            &&& group.count > 0
            &&& group == group_of(records, group.command)
        },
    }
}

/// `rows` is the view of `records` under `state`: exactly the expected
/// rows, each before all that follow it in the chosen order.
pub open spec fn is_view_of(
    rows: Seq<RowView>,
    records: Seq<RecordView>,
    state: ViewStateView,
) -> bool {
    &&& strictly_sorted(rows, state.sort_key, state.descending)
    &&& forall|row: RowView|
        rows.contains(row) <==> expected_row(records, state.grouping, state.filter, row)
}

/// The view of `records` under `state`. Valid records have exactly one
/// view, which [`build_view`] computes.
pub open spec fn view_rows(records: Seq<RecordView>, state: ViewStateView) -> Seq<RowView> {
    choose|rows: Seq<RowView>| is_view_of(rows, records, state)
}

spec fn leaf_rows(records: Seq<RecordView>, filter: Seq<char>) -> Seq<RowView>
    decreases records.len(),
{
    if records.len() == 0 {
        Seq::empty()
    } else if text_contains(records.last().command, filter) {
        leaf_rows(records.drop_last(), filter).push(RowView::Leaf(records.last()))
    } else {
        leaf_rows(records.drop_last(), filter)
    }
}

proof fn lemma_leaf_rows(records: Seq<RecordView>, filter: Seq<char>)
    ensures
        forall|row: RowView|
            leaf_rows(records, filter).contains(row) <==> expected_row(
                records,
                false,
                filter,
                row,
            ),
        leaf_rows(records, filter).len() == matching_count(records, filter),
        member_total(leaf_rows(records, filter)) == matching_count(records, filter),
        distinct_pids(records) ==> distinct_identities(leaf_rows(records, filter)),
    decreases records.len(),
{
    let rows = leaf_rows(records, filter);
    if records.len() == 0 {
        assert forall|row: RowView| rows.contains(row) <==> expected_row(
            records,
            false,
            filter,
            row,
        ) by {}
    } else {
        let earlier = records.drop_last();
        let last = records.last();
        let before = leaf_rows(earlier, filter);
        lemma_leaf_rows(earlier, filter);
        assert forall|row: RowView| rows.contains(row) <==> expected_row(
            records,
            false,
            filter,
            row,
        ) by {
            if rows.contains(row) {
                let i = choose|i: int| 0 <= i < rows.len() && rows[i] == row;
                if i < before.len() {
                    assert(before.contains(row));
                    let record = row->Leaf_0;
                    let k = choose|k: int| 0 <= k < earlier.len() && earlier[k] == record;
                    assert(records[k] == record);
                } else {
                    assert(records[records.len() - 1] == last);
                }
            }
            if expected_row(records, false, filter, row) {
                let record = row->Leaf_0;
                let k = choose|k: int| 0 <= k < records.len() && records[k] == record;
                if k < earlier.len() {
                    assert(earlier[k] == record);
                    assert(earlier.contains(record));
                    assert(before.contains(row));
                    let i = choose|i: int| 0 <= i < before.len() && before[i] == row;
                    assert(rows[i] == row);
                } else {
                    assert(rows[rows.len() - 1] == row);
                }
            }
        }
        if text_contains(last.command, filter) {
            assert(rows.drop_last() =~= before);
        }
        if distinct_pids(records) {
            assert(distinct_pids(earlier));
            assert forall|i: int, j: int|
                0 <= i < rows.len() && 0 <= j < rows.len() && i != j implies !same_identity(
                #[trigger] rows[i],
                #[trigger] rows[j],
            ) by {
                if i == before.len() || j == before.len() {
                    let other = if i == before.len() {
                        j
                    } else {
                        i
                    };
                    assert(before.contains(before[other]));
                    let record = before[other]->Leaf_0;
                    let k = choose|k: int| 0 <= k < earlier.len() && earlier[k] == record;
                    assert(records[k].pid != records[records.len() - 1].pid);
                }
            }
        }
    }
}

/// The rows of the processes whose command contains `filter`, in the
/// order of the snapshot.
fn collect_leaves(snapshot: &ProcessSnapshot, filter: &Vec<char>) -> (rows: Vec<DisplayRow>)
    ensures
        rows_view(rows@) == leaf_rows(snapshot@, filter@),
{
    let n = snapshot.len();
    let mut rows: Vec<DisplayRow> = Vec::new();
    let mut i: usize = 0;
    proof {
        assert(snapshot@.take(0) =~= Seq::<RecordView>::empty());
    }
    while i < n
        invariant
            n == snapshot@.len(),
            i <= n,
            rows_view(rows@) =~= leaf_rows(snapshot@.take(i as int), filter@),
        decreases n - i,
    {
        let record = snapshot.get(i);
        proof {
            assert(snapshot@.take(i + 1).drop_last() =~= snapshot@.take(i as int));
            assert(snapshot@.take(i + 1).last() == snapshot@[i as int]);
        }
        if record_passes(record, filter) {
            rows.push(DisplayRow::Leaf(record.clone()));
        }
        i += 1;
    }
    proof {
        assert(snapshot@.take(n as int) =~= snapshot@);
    }
    rows
}

/// Decides whether the command of `record` contains `filter`.
fn record_passes(record: &ProcessRecord, filter: &Vec<char>) -> (passes: bool)
    ensures
        passes == text_contains(record@.command, filter@),
{
    if filter.len() == 0 {
        proof {
            assert(filter@ =~= Seq::<char>::empty());
            lemma_contains_empty(record@.command);
        }
        true
    } else {
        let command = chars_of(record.command.as_str());
        chars_contain(&command, filter)
    }
}

/// Some row has the command `command`.
spec fn has_group(rows: Seq<RowView>, command: Seq<char>) -> bool {
    exists|g: int| 0 <= g < rows.len() && row_command(#[trigger] rows[g]) == command
}

/// `rows` are the group rows of the records `seen`, in any order.
spec fn groups_of(rows: Seq<RowView>, seen: Seq<RecordView>, filter: Seq<char>) -> bool {
    &&& forall|g: int|
        0 <= g < rows.len() ==> expected_row(seen, true, filter, #[trigger] rows[g])
    &&& forall|c: Seq<char>|
        #![trigger has_group(rows, c)]
        text_contains(c, filter) && command_count(seen, c) > 0 ==> has_group(rows, c)
    &&& distinct_identities(rows)
    &&& rows.len() == group_total(seen, filter)
    &&& member_total(rows) == matching_count(seen, filter)
}

proof fn lemma_groups_of(rows: Seq<RowView>, records: Seq<RecordView>, filter: Seq<char>)
    requires
        groups_of(rows, records, filter),
    ensures
        forall|row: RowView|
            rows.contains(row) <==> expected_row(records, true, filter, row),
{
    assert forall|row: RowView| rows.contains(row) <==> expected_row(
        records,
        true,
        filter,
        row,
    ) by {
        if expected_row(records, true, filter, row) {
            let command = row->Group_0.command;
            assert(has_group(rows, command));
            let g = choose|g: int| 0 <= g < rows.len() && row_command(#[trigger] rows[g]) == command;
            assert(expected_row(records, true, filter, rows[g]));
            assert(rows[g] == row);
        }
    }
}

proof fn lemma_total_where_bounds(records: Seq<RecordView>, chosen: spec_fn(RecordView) -> bool)
    ensures
        total_where(records, chosen, one_each()) <= records.len(),
        total_where(records, chosen, cpu_share()) <= records.len() * 0xffff_ffff,
        total_where(records, chosen, mem_share()) <= records.len() * 0xffff_ffff,
    decreases records.len(),
{
    if records.len() > 0 {
        lemma_total_where_bounds(records.drop_last(), chosen);
    }
}

proof fn lemma_nothing_chosen(
    records: Seq<RecordView>,
    chosen: spec_fn(RecordView) -> bool,
    weight: spec_fn(RecordView) -> nat,
)
    requires
        total_where(records, chosen, one_each()) == 0,
    ensures
        total_where(records, chosen, weight) == 0,
    decreases records.len(),
{
    if records.len() > 0 {
        lemma_nothing_chosen(records.drop_last(), chosen, weight);
    }
}

/// Finds the row that has the command `command`.
fn find_group(rows: &Vec<DisplayRow>, command: &String) -> (found: Option<usize>)
    ensures
        match found {
            Some(g) => g < rows.len() && row_command(rows_view(rows@)[g as int]) == command@,
            None => !has_group(rows_view(rows@), command@),
        },
{
    let mut g: usize = 0;
    while g < rows.len()
        invariant
            g <= rows.len(),
            forall|k: int| 0 <= k < g ==> row_command(#[trigger] rows_view(rows@)[k]) != command@,
        decreases rows.len() - g,
    {
        let same = match &rows[g] {
            DisplayRow::Leaf(record) => record.command == *command,
            DisplayRow::Group(group) => group.command == *command,
        };
        if same {
            return Some(g);
        }
        g += 1;
    }
    None
}

/// One row for each command that contains `filter`, in the order in which
/// the commands first occur in the snapshot.
fn collect_groups(snapshot: &ProcessSnapshot, filter: &Vec<char>) -> (rows: Vec<DisplayRow>)
    requires
        snapshot.wf(),
    ensures
        groups_of(rows_view(rows@), snapshot@, filter@),
{
    let n = snapshot.len();
    let mut rows: Vec<DisplayRow> = Vec::new();
    let mut i: usize = 0;
    proof {
        lemma_distinct_pids_bound(snapshot@);
        assert(snapshot@.take(0) =~= Seq::<RecordView>::empty());
        assert(rows_view(rows@) =~= Seq::<RowView>::empty());
    }
    while i < n
        invariant
            n == snapshot@.len(),
            n <= 0x1_0000_0000,
            i <= n,
            groups_of(rows_view(rows@), snapshot@.take(i as int), filter@),
        decreases n - i,
    {
        let record = snapshot.get(i);
        let ghost seen = snapshot@.take(i as int);
        let ghost next = snapshot@.take(i + 1);
        let ghost before = rows_view(rows@);
        let ghost c = record@.command;
        proof {
            assert(next.drop_last() =~= seen);
            assert(next.last() == record@);
        }
        if record_passes(record, filter) {
            match find_group(&rows, &record.command) {
                Some(g) => {
                    proof {
                        assert(expected_row(seen, true, filter@, before[g as int]));
                        lemma_total_where_bounds(seen, has_command(c));
                    }
                    match &mut rows[g] {
                        DisplayRow::Group(group) => {
                            group.count = group.count + 1;
                            group.cpu = group.cpu + record.cpu as u64;
                            group.mem = group.mem + record.mem as u64;
                        },
                        DisplayRow::Leaf(_) => {},
                    }
                    proof {
                        let after = rows_view(rows@);
                        assert(after =~= before.update(g as int, after[g as int]));
                        lemma_member_total_update(before, g as int, after[g as int]);
                        assert forall|h: int| 0 <= h < after.len() implies expected_row(
                            next,
                            true,
                            filter@,
                            #[trigger] after[h],
                        ) by {
                            assert(expected_row(seen, true, filter@, before[h]));
                            if h != g {
                                assert(!same_identity(before[h], before[g as int]));
                            }
                        }
                        assert forall|d: Seq<char>|
                            #![trigger has_group(after, d)]
                            text_contains(d, filter@) && command_count(next, d)
                                > 0 implies has_group(after, d) by {
                            if d == c {
                                assert(row_command(after[g as int]) == d);
                            } else {
                                assert(has_group(before, d));
                                let h = choose|h: int|
                                    0 <= h < before.len() && row_command(#[trigger] before[h])
                                        == d;
                                assert(row_command(after[h]) == d);
                            }
                        }
                        assert forall|a: int, b: int|
                            0 <= a < after.len() && 0 <= b < after.len() && a
                                != b implies !same_identity(
                            #[trigger] after[a],
                            #[trigger] after[b],
                        ) by {
                            assert(!same_identity(before[a], before[b]));
                        }
                    }
                },
                None => {
                    proof {
                        lemma_nothing_chosen(seen, has_command(c), cpu_share());
                        lemma_nothing_chosen(seen, has_command(c), mem_share());
                    }
                    rows.push(
                        DisplayRow::Group(
                            GroupRow {
                                command: record.command.clone(),
                                count: 1,
                                cpu: record.cpu as u64,
                                mem: record.mem as u64,
                            },
                        ),
                    );
                    proof {
                        let after = rows_view(rows@);
                        assert(after =~= before.push(after[before.len() as int]));
                        assert(after.drop_last() =~= before);
                        assert forall|h: int| 0 <= h < after.len() implies expected_row(
                            next,
                            true,
                            filter@,
                            #[trigger] after[h],
                        ) by {
                            if h < before.len() {
                                assert(expected_row(seen, true, filter@, before[h]));
                                assert(row_command(before[h]) != c);
                            }
                        }
                        assert forall|d: Seq<char>|
                            #![trigger has_group(after, d)]
                            text_contains(d, filter@) && command_count(next, d)
                                > 0 implies has_group(after, d) by {
                            if d == c {
                                assert(row_command(after[before.len() as int]) == d);
                            } else {
                                assert(has_group(before, d));
                                let h = choose|h: int|
                                    0 <= h < before.len() && row_command(#[trigger] before[h])
                                        == d;
                                assert(row_command(after[h]) == d);
                            }
                        }
                        assert forall|a: int, b: int|
                            0 <= a < after.len() && 0 <= b < after.len() && a
                                != b implies !same_identity(
                            #[trigger] after[a],
                            #[trigger] after[b],
                        ) by {
                            if a < before.len() && b < before.len() {
                                assert(!same_identity(before[a], before[b]));
                            } else if a < before.len() {
                                assert(row_command(before[a]) != c);
                                assert(expected_row(seen, true, filter@, before[a]));
                            } else {
                                assert(row_command(before[b]) != c);
                                assert(expected_row(seen, true, filter@, before[b]));
                            }
                        }
                    }
                },
            }
        } else {
            proof {
                assert forall|h: int| 0 <= h < before.len() implies expected_row(
                    next,
                    true,
                    filter@,
                    #[trigger] before[h],
                ) by {
                    assert(expected_row(seen, true, filter@, before[h]));
                }
                assert forall|d: Seq<char>|
                    #![trigger has_group(before, d)]
                    text_contains(d, filter@) && command_count(next, d) > 0 implies has_group(
                    before,
                    d,
                ) by {
                    assert(d != c);
                }
            }
        }
        i += 1;
    }
    proof {
        assert(snapshot@.take(n as int) =~= snapshot@);
    }
    rows
}

/// Builds the view of `snapshot` under `state`: the records are filtered
/// by command, gathered by command where grouping is on, and sorted.
pub fn build_view(snapshot: &ProcessSnapshot, state: &ViewState) -> (rows: Vec<DisplayRow>)
    requires
        snapshot.wf(),
    ensures
        rows_view(rows@) == view_rows(snapshot@, state@),
        is_view_of(rows_view(rows@), snapshot@, state@),
        rows.len() == row_total(snapshot@, state@.grouping, state@.filter),
        member_total(rows_view(rows@)) == matching_count(snapshot@, state@.filter),
{
    let filter = &state.filter;
    let unsorted = if state.grouping {
        collect_groups(snapshot, filter)
    } else {
        collect_leaves(snapshot, filter)
    };
    let ghost before = rows_view(unsorted@);
    proof {
        if state.grouping {
            lemma_groups_of(before, snapshot@, filter@);
        } else {
            lemma_leaf_rows(snapshot@, filter@);
        }
    }
    let rows = sort_rows(unsorted, state.sort_key, state.descending);
    proof {
        let after = rows_view(rows@);
        assert forall|row: RowView| after.contains(row) <==> before.contains(row) by {
            to_multiset_contains(after, row);
            to_multiset_contains(before, row);
        }
        assert(is_view_of(after, snapshot@, state@));
        lemma_view_unique(snapshot@, state@, view_rows(snapshot@, state@), after);
    }
    rows
}

/// Counts the rows of the view without building it.
pub fn count_rows(snapshot: &ProcessSnapshot, grouping: bool, filter: &Vec<char>) -> (total:
    usize)
    requires
        snapshot.wf(),
    ensures
        total == row_total(snapshot@, grouping, filter@),
{
    if grouping {
        return collect_groups(snapshot, filter).len();
    }
    let n = snapshot.len();
    let mut total: usize = 0;
    let mut i: usize = 0;
    proof {
        assert(snapshot@.take(0) =~= Seq::<RecordView>::empty());
    }
    while i < n
        invariant
            n == snapshot@.len(),
            i <= n,
            total <= i,
            total == matching_count(snapshot@.take(i as int), filter@),
        decreases n - i,
    {
        proof {
            assert(snapshot@.take(i + 1).drop_last() =~= snapshot@.take(i as int));
            assert(snapshot@.take(i + 1).last() == snapshot@[i as int]);
        }
        if record_passes(snapshot.get(i), filter) {
            total += 1;
        }
        i += 1;
    }
    proof {
        assert(snapshot@.take(n as int) =~= snapshot@);
    }
    total
}

/// A snapshot and a view state have one view only: whatever builds a view
/// of them arrives at the same rows in the same order.
pub proof fn lemma_view_unique(
    records: Seq<RecordView>,
    state: ViewStateView,
    first: Seq<RowView>,
    second: Seq<RowView>,
)
    requires
        is_view_of(first, records, state),
        is_view_of(second, records, state),
    ensures
        first == second,
{
    lemma_sorted_rows_unique(first, second, state.sort_key, state.descending);
}

/// Rows that agree in the sort column stand in the order of the tie-break:
/// processes by ascending identifier, groups by ascending command.
pub proof fn lemma_ties_follow_tie_break(
    rows: Seq<RowView>,
    records: Seq<RecordView>,
    state: ViewStateView,
    i: int,
    j: int,
)
    requires
        is_view_of(rows, records, state),
        0 <= i < j < rows.len(),
        !key_lt(state.sort_key, rows[i], rows[j]),
        !key_lt(state.sort_key, rows[j], rows[i]),
    ensures
        tie_lt(rows[i], rows[j]),
{
}

proof fn lemma_total_where_remove(
    records: Seq<RecordView>,
    k: int,
    chosen: spec_fn(RecordView) -> bool,
    weight: spec_fn(RecordView) -> nat,
)
    requires
        0 <= k < records.len(),
    ensures
        total_where(records, chosen, weight) == total_where(records.remove(k), chosen, weight)
            + if chosen(records[k]) {
            weight(records[k])
        } else {
            0
        },
    decreases records.len(),
{
    if k == records.len() - 1 {
        assert(records.remove(k) =~= records.drop_last());
    } else {
        assert(records.remove(k).drop_last() =~= records.drop_last().remove(k));
        assert(records.remove(k).last() == records.last());
        lemma_total_where_remove(records.drop_last(), k, chosen, weight);
    }
}

/// A sum over records does not depend on the order of the records.
pub proof fn lemma_total_where_reordered(
    records: Seq<RecordView>,
    reordered: Seq<RecordView>,
    chosen: spec_fn(RecordView) -> bool,
    weight: spec_fn(RecordView) -> nat,
)
    requires
        records.to_multiset() == reordered.to_multiset(),
    ensures
        total_where(records, chosen, weight) == total_where(reordered, chosen, weight),
    decreases records.len(),
{
    to_multiset_len(records);
    to_multiset_len(reordered);
    if records.len() > 0 {
        let last = records.last();
        let earlier = records.drop_last();
        assert(records =~= earlier.push(last));
        to_multiset_build(earlier, last);
        to_multiset_contains(reordered, last);
        let k = choose|k: int| 0 <= k < reordered.len() && reordered[k] == last;
        to_multiset_remove(reordered, k);
        assert(earlier.to_multiset() =~= reordered.remove(k).to_multiset());
        lemma_total_where_reordered(earlier, reordered.remove(k), chosen, weight);
        lemma_total_where_remove(reordered, k, chosen, weight);
    }
}

/// The view does not depend on the order in which the snapshot lists the
/// processes: the same records in another order give the same rows in the
/// same order.
pub proof fn lemma_view_ignores_record_order(
    records: Seq<RecordView>,
    reordered: Seq<RecordView>,
    state: ViewStateView,
    rows: Seq<RowView>,
    other: Seq<RowView>,
)
    requires
        records.to_multiset() == reordered.to_multiset(),
        is_view_of(rows, records, state),
        is_view_of(other, reordered, state),
    ensures
        rows == other,
{
    assert forall|row: RowView|
        expected_row(records, state.grouping, state.filter, row) <==> expected_row(
            reordered,
            state.grouping,
            state.filter,
            row,
        ) by {
        match row {
            RowView::Leaf(record) => {
                to_multiset_contains(records, record);
                to_multiset_contains(reordered, record);
            },
            RowView::Group(group) => {
                let chosen = has_command(group.command);
                lemma_total_where_reordered(records, reordered, chosen, one_each());
                lemma_total_where_reordered(records, reordered, chosen, cpu_share());
                lemma_total_where_reordered(records, reordered, chosen, mem_share());
            },
        }
    }
    lemma_sorted_rows_unique(rows, other, state.sort_key, state.descending);
}

/// A filter only narrows: every row of the view under a filter is a row of
/// the view of the same snapshot without a filter, all else equal.
pub proof fn lemma_filter_narrows(
    records: Seq<RecordView>,
    state: ViewStateView,
    narrowed: Seq<RowView>,
    full: Seq<RowView>,
)
    requires
        is_view_of(narrowed, records, state),
        is_view_of(full, records, (ViewStateView { filter: Seq::empty(), ..state })),
    ensures
        forall|row: RowView| narrowed.contains(row) ==> full.contains(row),
{
    assert forall|row: RowView| narrowed.contains(row) implies full.contains(row) by {
        lemma_contains_empty(row_command(row));
        assert(expected_row(records, state.grouping, state.filter, row));
        assert(expected_row(records, state.grouping, Seq::empty(), row));
    }
}

/// A group row counts the records of its command and carries the sums of
/// their processor and memory shares.
pub proof fn lemma_group_sums_members(
    rows: Seq<RowView>,
    records: Seq<RecordView>,
    state: ViewStateView,
    i: int,
)
    requires
        is_view_of(rows, records, state),
        0 <= i < rows.len(),
        rows[i] is Group,
    ensures
        rows[i]->Group_0.count == command_count(records, rows[i]->Group_0.command),
        rows[i]->Group_0.cpu == total_where(
            records,
            has_command(rows[i]->Group_0.command),
            cpu_share(),
        ),
        rows[i]->Group_0.mem == total_where(
            records,
            has_command(rows[i]->Group_0.command),
            mem_share(),
        ),
{
    assert(rows.contains(rows[i]));
}

} // verus!
