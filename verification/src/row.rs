//! Display rows and the order in which a view lists them.

use crate::record::{ProcessRecord, RecordView};
use crate::text::{
    lemma_text_lt_asymmetric, lemma_text_lt_irreflexive, lemma_text_lt_total,
    lemma_text_lt_transitive, str_eq, str_lt, text_lt,
};
use vstd::prelude::*;

verus! {

/// The column that orders the rows. `Pid` orders process rows by process
/// identifier and group rows by their number of members.
#[derive(Debug, Clone, Copy, PartialEq, Eq, Structural)]
pub enum SortKey {
    Pid,
    Command,
    Cpu,
    Mem,
}

/// The column that a name stands for: `pid` or `count`, `command`, `cpu`,
/// `mem`, in lower case.
pub open spec fn sort_key_named(name: Seq<char>) -> Option<SortKey> {
    if name == "pid"@ || name == "count"@ {
        Some(SortKey::Pid)
    } else if name == "command"@ {
        Some(SortKey::Command)
    } else if name == "cpu"@ {
        Some(SortKey::Cpu)
    } else if name == "mem"@ {
        Some(SortKey::Mem)
    } else {
        None
    }
}

impl SortKey {
    /// The column that `name` stands for, if it names one.
    pub fn from_name(name: &str) -> (key: Option<SortKey>)
        ensures
            key == sort_key_named(name@),
    {
        if str_eq(name, "pid") || str_eq(name, "count") {
            Some(SortKey::Pid)
        } else if str_eq(name, "command") {
            Some(SortKey::Command)
        } else if str_eq(name, "cpu") {
            Some(SortKey::Cpu)
        } else if str_eq(name, "mem") {
            Some(SortKey::Mem)
        } else {
            None
        }
    }
}

/// All processes that share one command, summed up.
#[derive(Debug, PartialEq, Eq)]
pub struct GroupRow {
    pub command: String,
    pub count: usize,
    pub cpu: u64,
    pub mem: u64,
}

/// One line of the process list.
#[derive(Debug, PartialEq, Eq)]
pub enum DisplayRow {
    /// A single process.
    Leaf(ProcessRecord),
    /// The processes of one command.
    Group(GroupRow),
}

/// The mathematical value of a [`GroupRow`].
pub struct GroupView {
    pub command: Seq<char>,
    pub count: nat,
    pub cpu: nat,
    pub mem: nat,
}

/// The mathematical value of a [`DisplayRow`].
pub enum RowView {
    Leaf(RecordView),
    Group(GroupView),
}

impl View for GroupRow {
    type V = GroupView;

    open spec fn view(&self) -> GroupView {
        GroupView {
            command: self.command@,
            count: self.count as nat,
            cpu: self.cpu as nat,
            mem: self.mem as nat,
        }
    }
}

impl View for DisplayRow {
    type V = RowView;

    open spec fn view(&self) -> RowView {
        match self {
            DisplayRow::Leaf(record) => RowView::Leaf(record@),
            DisplayRow::Group(group) => RowView::Group(group@),
        }
    }
}

impl Clone for GroupRow {
    fn clone(&self) -> (copy: GroupRow)
        ensures
            copy@ == self@,
    {
        GroupRow {
            command: self.command.clone(),
            count: self.count,
            cpu: self.cpu,
            mem: self.mem,
        }
    }
}

impl Clone for DisplayRow {
    fn clone(&self) -> (copy: DisplayRow)
        ensures
            copy@ == self@,
    {
        match self {
            DisplayRow::Leaf(record) => DisplayRow::Leaf(record.clone()),
            DisplayRow::Group(group) => DisplayRow::Group(group.clone()),
        }
    }
}

/// The values of a sequence of rows.
pub open spec fn rows_view(rows: Seq<DisplayRow>) -> Seq<RowView> {
    rows.map_values(|r: DisplayRow| r@)
}

/// The number by which `key` orders a row, for the numeric keys.
pub open spec fn number_key(key: SortKey, row: RowView) -> int {
    match row {
        RowView::Leaf(record) => match key {
            SortKey::Pid => record.pid as int,
            SortKey::Cpu => record.cpu as int,
            SortKey::Mem => record.mem as int,
            SortKey::Command => 0,
        },
        RowView::Group(group) => match key {
            SortKey::Pid => group.count as int,
            SortKey::Cpu => group.cpu as int,
            SortKey::Mem => group.mem as int,
            SortKey::Command => 0,
        },
    }
}

/// The command of a row.
pub open spec fn row_command(row: RowView) -> Seq<char> {
    match row {
        RowView::Leaf(record) => record.command,
        RowView::Group(group) => group.command,
    }
}

/// `a` has the smaller value in the column `key`.
pub open spec fn key_lt(key: SortKey, a: RowView, b: RowView) -> bool {
    if key == SortKey::Command {
        text_lt(row_command(a), row_command(b))
    } else {
        number_key(key, a) < number_key(key, b)
    }
}

/// The tie-break: process rows by ascending process identifier, group rows
/// by ascending command. No view mixes the two kinds; a process row is
/// put before a group row so that the order is total.
pub open spec fn tie_lt(a: RowView, b: RowView) -> bool {
    match (a, b) {
        (RowView::Leaf(x), RowView::Leaf(y)) => x.pid < y.pid,
        (RowView::Group(x), RowView::Group(y)) => text_lt(x.command, y.command),
        (RowView::Leaf(_), RowView::Group(_)) => true,
        (RowView::Group(_), RowView::Leaf(_)) => false,
    }
}

/// Two rows stand for the same thing: the same process, or the same command.
pub open spec fn same_identity(a: RowView, b: RowView) -> bool {
    match (a, b) {
        (RowView::Leaf(x), RowView::Leaf(y)) => x.pid == y.pid,
        (RowView::Group(x), RowView::Group(y)) => x.command == y.command,
        _ => false,
    }
}

/// `a` is listed before `b`: its value in the column `key` comes first in
/// the chosen direction, or the values are equal and the tie-break puts `a`
/// first. The tie-break is ascending in both directions.
pub open spec fn row_before(key: SortKey, descending: bool, a: RowView, b: RowView) -> bool {
    let ahead = if descending {
        key_lt(key, b, a)
    } else {
        key_lt(key, a, b)
    };
    let behind = if descending {
        key_lt(key, a, b)
    } else {
        key_lt(key, b, a)
    };
    ahead || (!behind && tie_lt(a, b))
}

/// Every row is listed before all rows that follow it.
pub open spec fn strictly_sorted(rows: Seq<RowView>, key: SortKey, descending: bool) -> bool {
    forall|i: int, j: int|
        0 <= i < j < rows.len() ==> row_before(key, descending, #[trigger] rows[i], #[trigger] rows[j])
}

/// No row is listed before itself.
pub proof fn lemma_row_before_irreflexive(key: SortKey, descending: bool, a: RowView)
    ensures
        !row_before(key, descending, a, a),
{
    lemma_text_lt_irreflexive(row_command(a));
}

/// Of two rows at most one is listed before the other.
pub proof fn lemma_row_before_asymmetric(key: SortKey, descending: bool, a: RowView, b: RowView)
    requires
        row_before(key, descending, a, b),
    ensures
        !row_before(key, descending, b, a),
{
    if text_lt(row_command(a), row_command(b)) {
        lemma_text_lt_asymmetric(row_command(a), row_command(b));
    }
    if text_lt(row_command(b), row_command(a)) {
        lemma_text_lt_asymmetric(row_command(b), row_command(a));
    }
}

/// The order of rows is transitive.
pub proof fn lemma_row_before_transitive(
    key: SortKey,
    descending: bool,
    a: RowView,
    b: RowView,
    c: RowView,
)
    requires
        row_before(key, descending, a, b),
        row_before(key, descending, b, c),
    ensures
        row_before(key, descending, a, c),
{
    let ta = row_command(a);
    let tb = row_command(b);
    let tc = row_command(c);
    lemma_text_lt_total(ta, tb);
    lemma_text_lt_total(tb, tc);
    lemma_text_lt_total(ta, tc);
    if text_lt(ta, tb) && text_lt(tb, tc) {
        lemma_text_lt_transitive(ta, tb, tc);
    }
    if text_lt(tc, tb) && text_lt(tb, ta) {
        lemma_text_lt_transitive(tc, tb, ta);
    }
    if text_lt(ta, tc) {
        lemma_text_lt_asymmetric(ta, tc);
    }
    if text_lt(tc, ta) {
        lemma_text_lt_asymmetric(tc, ta);
    }
    if text_lt(ta, tb) {
        lemma_text_lt_asymmetric(ta, tb);
    }
    if text_lt(tb, tc) {
        lemma_text_lt_asymmetric(tb, tc);
    }
}

/// Two rows that do not stand for the same thing are ordered one way or
/// the other.
pub proof fn lemma_row_before_total(key: SortKey, descending: bool, a: RowView, b: RowView)
    ensures
        same_identity(a, b) || row_before(key, descending, a, b) || row_before(
            key,
            descending,
            b,
            a,
        ),
{
    lemma_text_lt_total(row_command(a), row_command(b));
}

fn key_precedes(key: SortKey, a: &DisplayRow, b: &DisplayRow) -> (r: bool)
    ensures
        r == key_lt(key, a@, b@),
{
    match (a, b) {
        (DisplayRow::Leaf(x), DisplayRow::Leaf(y)) => match key {
            SortKey::Pid => x.pid < y.pid,
            SortKey::Command => str_lt(x.command.as_str(), y.command.as_str()),
            SortKey::Cpu => x.cpu < y.cpu,
            SortKey::Mem => x.mem < y.mem,
        },
        (DisplayRow::Group(x), DisplayRow::Group(y)) => match key {
            SortKey::Pid => x.count < y.count,
            SortKey::Command => str_lt(x.command.as_str(), y.command.as_str()),
            SortKey::Cpu => x.cpu < y.cpu,
            SortKey::Mem => x.mem < y.mem,
        },
        (DisplayRow::Leaf(x), DisplayRow::Group(y)) => match key {
            SortKey::Pid => (x.pid as u64) < (y.count as u64),
            SortKey::Command => str_lt(x.command.as_str(), y.command.as_str()),
            SortKey::Cpu => (x.cpu as u64) < y.cpu,
            SortKey::Mem => (x.mem as u64) < y.mem,
        },
        (DisplayRow::Group(x), DisplayRow::Leaf(y)) => match key {
            SortKey::Pid => (x.count as u64) < (y.pid as u64),
            SortKey::Command => str_lt(x.command.as_str(), y.command.as_str()),
            SortKey::Cpu => x.cpu < (y.cpu as u64),
            SortKey::Mem => x.mem < (y.mem as u64),
        },
    }
}

fn tie_precedes(a: &DisplayRow, b: &DisplayRow) -> (r: bool)
    ensures
        r == tie_lt(a@, b@),
{
    match (a, b) {
        (DisplayRow::Leaf(x), DisplayRow::Leaf(y)) => x.pid < y.pid,
        (DisplayRow::Group(x), DisplayRow::Group(y)) => str_lt(
            x.command.as_str(),
            y.command.as_str(),
        ),
        (DisplayRow::Leaf(_), DisplayRow::Group(_)) => true,
        (DisplayRow::Group(_), DisplayRow::Leaf(_)) => false,
    }
}

/// Decides whether `a` is listed before `b`.
pub fn row_precedes(key: SortKey, descending: bool, a: &DisplayRow, b: &DisplayRow) -> (r: bool)
    ensures
        r == row_before(key, descending, a@, b@),
{
    let forward = key_precedes(key, a, b);
    let backward = key_precedes(key, b, a);
    let ahead = if descending {
        backward
    } else {
        forward
    };
    let behind = if descending {
        forward
    } else {
        backward
    };
    if ahead {
        true
    } else if behind {
        false
    } else {
        tie_precedes(a, b)
    }
}

} // verus!
