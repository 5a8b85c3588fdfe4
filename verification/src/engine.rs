//! The process list engine: the current snapshot, the view state, and the
//! operations that keep selection and scrolling inside the list.

use crate::record::{distinct_pids, ProcessSnapshot, RecordView, SamplingError};
use crate::row::{rows_view, DisplayRow, RowView, SortKey};
use crate::text::chars_of;
use crate::view::{
    build_view, count_rows, is_view_of, row_total, view_rows, ViewState, ViewStateView,
};
use vstd::prelude::*;

verus! {

/// A target was asked for while the list has no rows.
#[derive(Debug, Clone, Copy, PartialEq, Eq)]
pub struct NoSelection;

/// The way a page scroll moves the selection.
#[derive(Debug, Clone, Copy, PartialEq, Eq, Structural)]
pub enum ScrollDirection {
    Up,
    Down,
}

/// The process list engine.
#[derive(Debug)]
pub struct Engine {
    snapshot: ProcessSnapshot,
    state: ViewState,
    row_count: usize,
}

/// The mathematical value of an [`Engine`].
pub struct EngineView {
    pub records: Seq<RecordView>,
    pub captured_at: u64,
    pub state: ViewStateView,
    pub row_count: nat,
}

impl View for Engine {
    type V = EngineView;

    closed spec fn view(&self) -> EngineView {
        EngineView {
            records: self.snapshot@,
            captured_at: self.snapshot.captured_at(),
            state: self.state@,
            row_count: self.row_count as nat,
        }
    }
}

/// Selection and scroll offset lie inside a list of `rows` rows, and the
/// first row shown is not past the selected one. With no rows both are
/// zero.
pub open spec fn in_range(state: ViewStateView, rows: nat) -> bool {
    if rows == 0 {
        state.selected == 0 && state.scroll_offset == 0
    } else {
        state.scroll_offset <= state.selected < rows
    }
}

/// The index nearest to `index` in a list of `rows` rows.
pub open spec fn clamp_index(index: int, rows: nat) -> nat {
    if rows == 0 || index < 0 {
        0
    } else if index < rows {
        index as nat
    } else {
        (rows - 1) as nat
    }
}

/// The state with the selection at the row nearest to `target`, and the
/// scroll offset lowered to the selection where it was beyond it.
pub open spec fn select(state: ViewStateView, target: int, rows: nat) -> ViewStateView {
    let selected = clamp_index(target, rows);
    ViewStateView {
        selected,
        scroll_offset: if state.scroll_offset <= selected {
            state.scroll_offset
        } else {
            selected
        },
        ..state
    }
}

/// The engine without processes that sorts and groups as given, without
/// a filter.
pub open spec fn initial(sort_key: SortKey, descending: bool, grouping: bool) -> EngineView {
    EngineView {
        records: Seq::empty(),
        captured_at: 0,
        state: ViewStateView {
            sort_key,
            descending,
            grouping,
            filter: Seq::empty(),
            scroll_offset: 0,
            selected: 0,
        },
        row_count: 0,
    }
}

/// The engine that holds `records`, captured at `captured_at`, under
/// `state`: with the row count of their view, and with selection and
/// scroll offset brought inside the list.
pub open spec fn settled(
    records: Seq<RecordView>,
    captured_at: u64,
    state: ViewStateView,
) -> EngineView {
    let rows = row_total(records, state.grouping, state.filter);
    EngineView {
        records,
        captured_at,
        state: select(state, state.selected as int, rows),
        row_count: rows,
    }
}

/// The scroll offset that shows the selected row in a window of `height`
/// rows, moved as little as possible. A window without height is taken as
/// one row high.
pub open spec fn revealing_offset(offset: nat, selected: nat, height: nat) -> nat {
    let window = if height == 0 {
        1
    } else {
        height
    };
    if selected < offset {
        selected
    } else if selected - offset >= window {
        (selected + 1 - window) as nat
    } else {
        offset
    }
}

/// The processes of `command`, in the order of the snapshot.
pub open spec fn command_pids(records: Seq<RecordView>, command: Seq<char>) -> Seq<u32>
    decreases records.len(),
{
    if records.len() == 0 {
        Seq::empty()
    } else if records.last().command == command {
        command_pids(records.drop_last(), command).push(records.last().pid)
    } else {
        command_pids(records.drop_last(), command)
    }
}

/// The processes that a row stands for.
pub open spec fn row_targets(records: Seq<RecordView>, row: RowView) -> Seq<u32> {
    match row {
        RowView::Leaf(record) => seq![record.pid],
        RowView::Group(group) => command_pids(records, group.command),
    }
}

/// The processes that the selected row of an engine stands for.
pub open spec fn selected_targets(engine: EngineView) -> Seq<u32> {
    row_targets(
        engine.records,
        view_rows(engine.records, engine.state)[engine.state.selected as int],
    )
}

impl Engine {
    /// Validity: the snapshot is valid, the row count is that of the view,
    /// and selection and scroll offset lie inside the list.
    pub open spec fn wf(&self) -> bool {
        &&& distinct_pids(self@.records)
        &&& self@.row_count == row_total(
            self@.records,
            self@.state.grouping,
            self@.state.filter,
        )
        &&& in_range(self@.state, self@.row_count)
    }

    /// An engine without processes that sorts by `sort_key`.
    pub fn with_settings(sort_key: SortKey, descending: bool, grouping: bool) -> (engine: Engine)
        ensures
            engine.wf(),
            engine@ == initial(sort_key, descending, grouping),
    {
        let state = ViewState {
            sort_key,
            descending,
            grouping,
            filter: Vec::new(),
            scroll_offset: 0,
            selected: 0,
        };
        Engine { snapshot: ProcessSnapshot::empty(0), state, row_count: 0 }
    }

    /// An engine without processes: by processor share, largest first,
    /// without grouping or filter.
    pub fn new() -> (engine: Engine)
        ensures
            engine.wf(),
            engine@ == initial(SortKey::Cpu, true, false),
    {
        Engine::with_settings(SortKey::Cpu, true, false)
    }

    fn recount(&mut self)
        requires
            distinct_pids(old(self)@.records),
        ensures
            final(self)@ == settled(
                old(self)@.records,
                old(self)@.captured_at,
                old(self)@.state,
            ),
            final(self).wf(),
    {
        self.row_count = count_rows(&self.snapshot, self.state.grouping, &self.state.filter);
        self.place(self.state.selected);
    }

    fn place(&mut self, target: usize)
        ensures
            final(self)@ == (EngineView {
                state: select(old(self)@.state, target as int, old(self)@.row_count),
                ..old(self)@
            }),
            in_range(final(self)@.state, final(self)@.row_count),
    {
        let selected = if self.row_count == 0 {
            0
        } else if target < self.row_count {
            target
        } else {
            self.row_count - 1
        };
        self.state.selected = selected;
        if self.state.scroll_offset > selected {
            self.state.scroll_offset = selected;
        }
    }

    /// Replaces the snapshot. The row count follows the new snapshot, and
    /// selection and scroll offset are brought back inside the list; the
    /// rest of the view state stays.
    pub fn ingest(&mut self, snapshot: ProcessSnapshot)
        requires
            old(self).wf(),
            snapshot.wf(),
        ensures
            final(self).wf(),
            final(self)@ == settled(snapshot@, snapshot.captured_at(), old(self)@.state),
    {
        self.snapshot = snapshot;
        self.recount();
    }

    /// Takes the outcome of a sampling attempt: a snapshot is ingested, a
    /// failure is handed back and leaves the engine as it was.
    pub fn refresh(&mut self, sample: Result<ProcessSnapshot, SamplingError>) -> (outcome: Result<
        (),
        SamplingError,
    >)
        requires
            old(self).wf(),
            sample matches Ok(snapshot) ==> snapshot.wf(),
        ensures
            final(self).wf(),
            match sample {
                Ok(snapshot) => outcome is Ok && final(self)@ == settled(
                    snapshot@,
                    snapshot.captured_at(),
                    old(self)@.state,
                ),
                Err(error) => outcome == Err::<(), SamplingError>(error) && final(self)@ == old(
                    self,
                )@,
            },
    {
        match sample {
            Ok(snapshot) => {
                self.ingest(snapshot);
                Ok(())
            },
            Err(error) => Err(error),
        }
    }

    /// Chooses the sort column. Selection and scroll offset keep their
    /// indices: the selection is by position, not by process.
    pub fn set_sort_key(&mut self, key: SortKey)
        requires
            old(self).wf(),
        ensures
            final(self).wf(),
            final(self)@ == (EngineView {
                state: ViewStateView { sort_key: key, ..old(self)@.state },
                ..old(self)@
            }),
    {
        self.state.sort_key = key;
    }

    /// Reverses the sort direction. Selection and scroll offset keep their
    /// indices.
    pub fn toggle_sort_direction(&mut self)
        requires
            old(self).wf(),
        ensures
            final(self).wf(),
            final(self)@ == (EngineView {
                state: ViewStateView {
                    descending: !old(self)@.state.descending,
                    ..old(self)@.state
                },
                ..old(self)@
            }),
    {
        self.state.descending = !self.state.descending;
    }

    /// Switches grouping on or off, and brings selection and scroll offset
    /// back inside the list.
    pub fn toggle_grouping(&mut self)
        requires
            old(self).wf(),
        ensures
            final(self).wf(),
            final(self)@ == settled(
                old(self)@.records,
                old(self)@.captured_at,
                ViewStateView { grouping: !old(self)@.state.grouping, ..old(self)@.state },
            ),
    {
        self.state.grouping = !self.state.grouping;
        self.recount();
    }

    /// Sets the filter text, and brings selection and scroll offset back
    /// inside the list.
    pub fn set_filter(&mut self, text: &str)
        requires
            old(self).wf(),
        ensures
            final(self).wf(),
            final(self)@ == settled(
                old(self)@.records,
                old(self)@.captured_at,
                ViewStateView { filter: text@, ..old(self)@.state },
            ),
    {
        self.set_filter_chars(chars_of(text));
    }

    /// Sets the filter to the characters given, and brings selection and
    /// scroll offset back inside the list.
    pub fn set_filter_chars(&mut self, filter: Vec<char>)
        requires
            old(self).wf(),
        ensures
            final(self).wf(),
            final(self)@ == settled(
                old(self)@.records,
                old(self)@.captured_at,
                ViewStateView { filter: filter@, ..old(self)@.state },
            ),
    {
        self.state.filter = filter;
        self.recount();
    }

    /// Removes the filter, and brings selection and scroll offset back
    /// inside the list.
    pub fn clear_filter(&mut self)
        requires
            old(self).wf(),
        ensures
            final(self).wf(),
            final(self)@ == settled(
                old(self)@.records,
                old(self)@.captured_at,
                ViewStateView { filter: Seq::empty(), ..old(self)@.state },
            ),
    {
        self.state.filter = Vec::new();
        self.recount();
    }

    /// Moves the selection by `delta` rows, down for a positive number and
    /// up for a negative one. Past either end it stops at the end.
    pub fn scroll(&mut self, delta: isize)
        requires
            old(self).wf(),
        ensures
            final(self).wf(),
            final(self)@ == (EngineView {
                state: select(
                    old(self)@.state,
                    old(self)@.state.selected + delta,
                    old(self)@.row_count,
                ),
                ..old(self)@
            }),
            old(self)@.row_count > 0 && old(self)@.state.selected + delta >= old(self)@.row_count
                ==> final(self)@.state.selected == old(self)@.row_count - 1,
            old(self)@.state.selected + delta <= 0 ==> final(self)@.state.selected == 0,
    {
        let selected = self.state.selected;
        if delta >= 0 {
            let step = delta as usize;
            if self.row_count == 0 || step >= self.row_count - 1 - selected {
                self.scroll_to_bottom();
            } else {
                self.place(selected + step);
            }
        } else {
            let step_less_one = (-(delta + 1)) as usize;
            if selected <= step_less_one {
                self.place(0);
            } else {
                self.place(selected - step_less_one - 1);
            }
        }
    }

    /// Selects the first row and shows the list from its start.
    pub fn scroll_to_top(&mut self)
        requires
            old(self).wf(),
        ensures
            final(self).wf(),
            final(self)@ == (EngineView {
                state: ViewStateView { selected: 0, scroll_offset: 0, ..old(self)@.state },
                ..old(self)@
            }),
    {
        self.place(0);
    }

    /// Selects the last row.
    pub fn scroll_to_bottom(&mut self)
        requires
            old(self).wf(),
        ensures
            final(self).wf(),
            final(self)@ == (EngineView {
                state: select(
                    old(self)@.state,
                    old(self)@.row_count as int,
                    old(self)@.row_count,
                ),
                ..old(self)@
            }),
            old(self)@.row_count > 0 ==> final(self)@.state.selected == old(self)@.row_count - 1,
    {
        self.place(self.row_count);
    }

    /// Moves the scroll offset as little as needed to show the selected
    /// row in a window of `viewport_height` rows.
    pub fn reveal_selection(&mut self, viewport_height: usize)
        requires
            old(self).wf(),
        ensures
            final(self).wf(),
            final(self)@ == (EngineView {
                state: ViewStateView {
                    scroll_offset: revealing_offset(
                        old(self)@.state.scroll_offset,
                        old(self)@.state.selected,
                        viewport_height as nat,
                    ),
                    ..old(self)@.state
                },
                ..old(self)@
            }),
    {
        let window = if viewport_height == 0 {
            1
        } else {
            viewport_height
        };
        if self.state.selected - self.state.scroll_offset >= window {
            self.state.scroll_offset = self.state.selected + 1 - window;
        }
    }

    fn scroll_page(&mut self, direction: ScrollDirection, step: usize, viewport_height: usize)
        requires
            old(self).wf(),
        ensures
            final(self).wf(),
            final(self)@ == (EngineView {
                state: page_scrolled(
                    old(self)@.state,
                    direction,
                    step as nat,
                    viewport_height as nat,
                    old(self)@.row_count,
                ),
                ..old(self)@
            }),
    {
        let selected = self.state.selected;
        match direction {
            ScrollDirection::Down => {
                if self.row_count == 0 || step >= self.row_count - 1 - selected {
                    self.scroll_to_bottom();
                } else {
                    self.place(selected + step);
                }
            },
            ScrollDirection::Up => {
                if step >= selected {
                    self.place(0);
                } else {
                    self.place(selected - step);
                }
            },
        }
        self.reveal_selection(viewport_height);
    }

    /// Moves the selection by half of `viewport_height` rows in
    /// `direction`, stopping at either end, and shows the selected row.
    pub fn scroll_half_page(&mut self, direction: ScrollDirection, viewport_height: usize)
        requires
            old(self).wf(),
        ensures
            final(self).wf(),
            final(self)@ == (EngineView {
                state: page_scrolled(
                    old(self)@.state,
                    direction,
                    (viewport_height / 2) as nat,
                    viewport_height as nat,
                    old(self)@.row_count,
                ),
                ..old(self)@
            }),
    {
        self.scroll_page(direction, viewport_height / 2, viewport_height);
    }

    /// Moves the selection by `viewport_height` rows in `direction`,
    /// stopping at either end, and shows the selected row.
    pub fn scroll_full_page(&mut self, direction: ScrollDirection, viewport_height: usize)
        requires
            old(self).wf(),
        ensures
            final(self).wf(),
            final(self)@ == (EngineView {
                state: page_scrolled(
                    old(self)@.state,
                    direction,
                    viewport_height as nat,
                    viewport_height as nat,
                    old(self)@.row_count,
                ),
                ..old(self)@
            }),
    {
        self.scroll_page(direction, viewport_height, viewport_height);
    }

    /// The rows of the current view.
    pub fn rows(&self) -> (rows: Vec<DisplayRow>)
        requires
            self.wf(),
        ensures
            rows_view(rows@) == view_rows(self@.records, self@.state),
            is_view_of(rows_view(rows@), self@.records, self@.state),
            rows.len() == self@.row_count,
    {
        build_view(&self.snapshot, &self.state)
    }

    /// The processes that the selected row stands for: the one process of
    /// a process row, or all processes of the command of a group row, in
    /// the order of the snapshot.
    pub fn selected_target(&self) -> (target: Result<Vec<u32>, NoSelection>)
        requires
            self.wf(),
        ensures
            target is Err <==> self@.row_count == 0,
            target matches Ok(pids) ==> pids@ == selected_targets(self@),
    {
        if self.row_count == 0 {
            return Err(NoSelection);
        }
        let rows = build_view(&self.snapshot, &self.state);
        let mut pids: Vec<u32> = Vec::new();
        match &rows[self.state.selected] {
            DisplayRow::Leaf(record) => {
                pids.push(record.pid);
            },
            DisplayRow::Group(group) => {
                let n = self.snapshot.len();
                let mut i: usize = 0;
                proof {
                    assert(self.snapshot@.take(0) =~= Seq::<RecordView>::empty());
                }
                while i < n
                    invariant
                        n == self.snapshot@.len(),
                        i <= n,
                        pids@ =~= command_pids(self.snapshot@.take(i as int), group@.command),
                    decreases n - i,
                {
                    let record = self.snapshot.get(i);
                    proof {
                        assert(self.snapshot@.take(i + 1).drop_last() =~= self.snapshot@.take(
                            i as int,
                        ));
                        assert(self.snapshot@.take(i + 1).last() == self.snapshot@[i as int]);
                    }
                    if record.command == group.command {
                        pids.push(record.pid);
                    }
                    i += 1;
                }
                proof {
                    assert(self.snapshot@.take(n as int) =~= self.snapshot@);
                }
            },
        }
        proof {
            let built = rows_view(rows@);
            assert(pids@ =~= row_targets(self@.records, built[self@.state.selected as int]));
        }
        Ok(pids)
    }

    /// The view state.
    pub fn view_state(&self) -> (state: &ViewState)
        ensures
            state@ == self@.state,
    {
        &self.state
    }

    /// The snapshot last ingested.
    pub fn snapshot(&self) -> (snapshot: &ProcessSnapshot)
        ensures
            snapshot@ == self@.records,
            snapshot.captured_at() == self@.captured_at,
            self.wf() ==> snapshot.wf(),
    {
        &self.snapshot
    }

    /// The number of rows of the current view.
    pub fn row_count(&self) -> (count: usize)
        ensures
            count == self@.row_count,
    {
        self.row_count
    }

    /// The index of the selected row, if the list has rows.
    pub fn selected(&self) -> (index: Option<usize>)
        ensures
            index == if self@.row_count == 0 {
                None
            } else {
                Some(self@.state.selected as usize)
            },
    {
        if self.row_count == 0 {
            None
        } else {
            Some(self.state.selected)
        }
    }

    /// The index of the first row shown.
    pub fn scroll_offset(&self) -> (offset: usize)
        ensures
            offset == self@.state.scroll_offset,
    {
        self.state.scroll_offset
    }
}

/// The state after a page scroll: the selection moves `step` rows in
/// `direction` and stops at either end of the list; the scroll offset then
/// shows the selection in a window of `height` rows.
pub open spec fn page_scrolled(
    state: ViewStateView,
    direction: ScrollDirection,
    step: nat,
    height: nat,
    rows: nat,
) -> ViewStateView {
    let target = match direction {
        ScrollDirection::Down => (state.selected + step) as int,
        ScrollDirection::Up => state.selected - step,
    };
    let moved = select(state, target, rows);
    ViewStateView {
        scroll_offset: revealing_offset(moved.scroll_offset, moved.selected, height),
        ..moved
    }
}

/// After every operation of a valid engine the selection lies inside the
/// list, or the list is empty.
pub proof fn lemma_selection_in_range(engine: Engine)
    requires
        engine.wf(),
    ensures
        engine@.row_count == 0 || engine@.state.selected < engine@.row_count,
        engine@.state.scroll_offset <= engine@.state.selected,
{
}

} // verus!
