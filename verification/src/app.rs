//! The state of the whole program in one record, and what it does on each
//! event: the host waits for events, hands them over one at a time, and
//! carries out the action that comes back.

use crate::command::{binding, key_input, Command, Input, Key, Modifier};
use crate::engine::{
    initial, page_scrolled, revealing_offset, select, selected_targets, settled, Engine,
    EngineView, ScrollDirection,
};
use crate::help_menu::{help_text, HelpMenu};
use crate::record::{ProcessSnapshot, SamplingError};
use crate::row::SortKey;
use crate::view::ViewStateView;
use vstd::prelude::*;

verus! {

/// What the host reports.
#[derive(Debug, Clone, Copy, PartialEq, Eq)]
pub enum Event {
    /// A key was pressed.
    Key(Key, Modifier),
    /// The terminal changed its size.
    Resize,
    /// The refresh timer ticked.
    Tick,
    /// The interrupt signal arrived.
    Interrupt,
}

/// What the host is to do next.
#[derive(Debug, PartialEq, Eq)]
pub enum Action {
    /// Leave the event loop.
    Quit,
    /// Nothing.
    Nothing,
    /// Sample all widgets anew, and draw them afterwards if `redraw`.
    Refresh { redraw: bool },
    /// Draw all widgets.
    DrawWidgets,
    /// Draw the help menu.
    DrawHelp,
    /// Draw the process list.
    DrawProc,
    /// Ask each of these processes to terminate.
    Terminate(Vec<u32>),
}

/// The mathematical value of an [`Action`].
pub enum ActionView {
    Quit,
    Nothing,
    Refresh { redraw: bool },
    DrawWidgets,
    DrawHelp,
    DrawProc,
    Terminate(Seq<u32>),
}

impl View for Action {
    type V = ActionView;

    open spec fn view(&self) -> ActionView {
        match self {
            Action::Quit => ActionView::Quit,
            Action::Nothing => ActionView::Nothing,
            Action::Refresh { redraw } => ActionView::Refresh { redraw: *redraw },
            Action::DrawWidgets => ActionView::DrawWidgets,
            Action::DrawHelp => ActionView::DrawHelp,
            Action::DrawProc => ActionView::DrawProc,
            Action::Terminate(pids) => ActionView::Terminate(pids@),
        }
    }
}

/// The state of the program: the process list engine, the help menu, and
/// the switches that the user toggles.
#[derive(Debug)]
pub struct App {
    engine: Engine,
    help_menu: HelpMenu,
    paused: bool,
    show_help: bool,
    filter_input: Option<Vec<char>>,
}

/// The mathematical value of an [`App`]. `filter_input` holds the filter
/// text under edit, and is `None` outside filter editing.
pub struct AppView {
    pub engine: EngineView,
    pub paused: bool,
    pub show_help: bool,
    pub filter_input: Option<Seq<char>>,
}

impl View for App {
    type V = AppView;

    closed spec fn view(&self) -> AppView {
        AppView {
            engine: self.engine@,
            paused: self.paused,
            show_help: self.show_help,
            filter_input: match self.filter_input {
                Some(text) => Some(text@),
                None => None,
            },
        }
    }
}

/// The engine after `key` was asked for as sort column: a new column is
/// taken with the direction as it is, the current column has its
/// direction reversed.
pub open spec fn sort_cycled(engine: EngineView, key: SortKey) -> EngineView {
    if engine.state.sort_key == key {
        EngineView {
            state: ViewStateView { descending: !engine.state.descending, ..engine.state },
            ..engine
        }
    } else {
        EngineView { state: ViewStateView { sort_key: key, ..engine.state }, ..engine }
    }
}

/// The engine with the selection moved to the row nearest to `target`.
pub open spec fn moved(engine: EngineView, target: int) -> EngineView {
    EngineView { state: select(engine.state, target, engine.row_count), ..engine }
}

/// The engine with the scroll offset moved as little as needed to show the
/// selected row in a window of `height` rows.
pub open spec fn shown(engine: EngineView, height: nat) -> EngineView {
    EngineView {
        state: ViewStateView {
            scroll_offset: revealing_offset(
                engine.state.scroll_offset,
                engine.state.selected,
                height,
            ),
            ..engine.state
        },
        ..engine
    }
}

/// The engine after a page scroll.
pub open spec fn paged(
    engine: EngineView,
    direction: ScrollDirection,
    step: nat,
    height: nat,
) -> EngineView {
    EngineView {
        state: page_scrolled(engine.state, direction, step, height, engine.row_count),
        ..engine
    }
}

/// The state after `command`, in a window of `height` rows. Every move of
/// the selection ends with the selected row shown in the window. A filter
/// command outside its mode changes nothing: editing begins only outside
/// editing, and characters, acceptance and giving up need editing.
/// Terminating changes nothing either.
pub open spec fn executed(app: AppView, command: Command, height: nat) -> AppView {
    let engine = app.engine;
    match command {
        Command::ScrollLineUp => AppView {
            engine: shown(moved(engine, engine.state.selected - 1), height),
            ..app
        },
        Command::ScrollLineDown => AppView {
            engine: shown(moved(engine, (engine.state.selected + 1) as int), height),
            ..app
        },
        Command::ScrollHalfPageUp => AppView {
            engine: paged(engine, ScrollDirection::Up, height / 2, height),
            ..app
        },
        Command::ScrollHalfPageDown => AppView {
            engine: paged(engine, ScrollDirection::Down, height / 2, height),
            ..app
        },
        Command::ScrollFullPageUp => AppView {
            engine: paged(engine, ScrollDirection::Up, height, height),
            ..app
        },
        Command::ScrollFullPageDown => AppView {
            engine: paged(engine, ScrollDirection::Down, height, height),
            ..app
        },
        Command::JumpTop => AppView { engine: shown(moved(engine, 0), height), ..app },
        Command::JumpBottom => AppView {
            engine: shown(moved(engine, engine.row_count as int), height),
            ..app
        },
        Command::ToggleGrouping => AppView {
            engine: settled(
                engine.records,
                engine.captured_at,
                ViewStateView { grouping: !engine.state.grouping, ..engine.state },
            ),
            ..app
        },
        Command::CycleSortByCount => AppView { engine: sort_cycled(engine, SortKey::Pid), ..app },
        Command::CycleSortByName => AppView {
            engine: sort_cycled(engine, SortKey::Command),
            ..app
        },
        Command::CycleSortByCpu => AppView { engine: sort_cycled(engine, SortKey::Cpu), ..app },
        Command::CycleSortByMem => AppView { engine: sort_cycled(engine, SortKey::Mem), ..app },
        Command::BeginFilterEdit => match app.filter_input {
            Some(_) => app,
            None => AppView { filter_input: Some(engine.state.filter), ..app },
        },
        Command::AppendFilterChar(c) => match app.filter_input {
            Some(text) => AppView { filter_input: Some(text.push(c)), ..app },
            None => app,
        },
        Command::CommitFilter => match app.filter_input {
            Some(text) => AppView {
                engine: settled(
                    engine.records,
                    engine.captured_at,
                    ViewStateView { filter: text, ..engine.state },
                ),
                filter_input: None,
                ..app
            },
            None => app,
        },
        Command::CancelFilter => match app.filter_input {
            Some(_) => AppView {
                engine: settled(
                    engine.records,
                    engine.captured_at,
                    ViewStateView { filter: Seq::empty(), ..engine.state },
                ),
                filter_input: None,
                ..app
            },
            None => app,
        },
        Command::TerminateSelected => app,
    }
}

/// The processes that `command` asks to terminate: those of the selected
/// row, for the terminate command on a list that has rows.
pub open spec fn execution_targets(app: AppView, command: Command) -> Option<Seq<u32>> {
    if command == Command::TerminateSelected && app.engine.row_count > 0 {
        Some(selected_targets(app.engine))
    } else {
        None
    }
}

/// The state and the action after `event`, in a window of `height` rows.
pub open spec fn reacted(app: AppView, event: Event, height: nat) -> (AppView, ActionView) {
    match event {
        Event::Interrupt => (app, ActionView::Quit),
        Event::Tick => (
            app,
            if app.paused {
                ActionView::Nothing
            } else {
                ActionView::Refresh { redraw: !app.show_help }
            },
        ),
        Event::Resize => (
            AppView { engine: shown(app.engine, height), ..app },
            if app.show_help {
                ActionView::DrawHelp
            } else {
                ActionView::DrawWidgets
            },
        ),
        Event::Key(key, modifier) => match binding(key, modifier, app.filter_input is Some) {
            None => (app, ActionView::Nothing),
            Some(Input::Quit) => (app, ActionView::Quit),
            Some(Input::ToggleHelp) => (
                AppView { show_help: !app.show_help, ..app },
                if app.show_help {
                    ActionView::DrawWidgets
                } else {
                    ActionView::DrawHelp
                },
            ),
            Some(Input::TogglePause) => (AppView { paused: !app.paused, ..app }, ActionView::Nothing),
            Some(Input::CloseHelp) => if app.show_help {
                (AppView { show_help: false, ..app }, ActionView::DrawWidgets)
            } else {
                (app, ActionView::Nothing)
            },
            Some(Input::Run(command)) => (
                executed(app, command, height),
                match execution_targets(app, command) {
                    Some(pids) => ActionView::Terminate(pids),
                    None => if command == Command::TerminateSelected || app.show_help {
                        ActionView::Nothing
                    } else {
                        ActionView::DrawProc
                    },
                },
            ),
        },
    }
}

fn copy_chars(text: &Vec<char>) -> (copy: Vec<char>)
    ensures
        copy@ == text@,
{
    let mut copy: Vec<char> = Vec::new();
    let mut i: usize = 0;
    while i < text.len()
        invariant
            i <= text.len(),
            copy@ =~= text@.take(i as int),
        decreases text.len() - i,
    {
        copy.push(text[i]);
        i += 1;
    }
    proof {
        assert(text@.take(text.len() as int) =~= text@);
    }
    copy
}

/// The program at its start: no processes, the list by processor share
/// with the largest first, nothing paused or shown over it.
pub fn setup_app() -> (app: App)
    ensures
        app.wf(),
        app@ == (AppView {
            engine: initial(SortKey::Cpu, true, false),
            paused: false,
            show_help: false,
            filter_input: None,
        }),
{
    App {
        engine: Engine::new(),
        help_menu: HelpMenu::new(),
        paused: false,
        show_help: false,
        filter_input: None,
    }
}

impl App {
    /// Validity: the engine is valid, and the help menu holds its text.
    pub closed spec fn wf(&self) -> bool {
        self.engine.wf() && self.help_menu@ == help_text()
    }

    /// The program at its start, with the list sorted and grouped as
    /// given.
    pub fn with_settings(sort_key: SortKey, descending: bool, grouping: bool) -> (app: App)
        ensures
            app.wf(),
            app@ == (AppView {
                engine: initial(sort_key, descending, grouping),
                paused: false,
                show_help: false,
                filter_input: None,
            }),
    {
        App {
            engine: Engine::with_settings(sort_key, descending, grouping),
            help_menu: HelpMenu::new(),
            paused: false,
            show_help: false,
            filter_input: None,
        }
    }

    fn cycle_sort(&mut self, key: SortKey)
        requires
            old(self).wf(),
        ensures
            final(self).wf(),
            final(self)@ == (AppView { engine: sort_cycled(old(self)@.engine, key), ..old(self)@ }),
    {
        if self.engine.view_state().sort_key == key {
            self.engine.toggle_sort_direction();
        } else {
            self.engine.set_sort_key(key);
        }
    }

    /// Carries out `command` in a window of `viewport_height` rows, and
    /// returns the processes to terminate if the command asks for that.
    /// No command fails; one that does not apply changes nothing.
    pub fn execute(&mut self, command: Command, viewport_height: usize) -> (targets: Option<
        Vec<u32>,
    >)
        requires
            old(self).wf(),
        ensures
            final(self).wf(),
            final(self)@ == executed(old(self)@, command, viewport_height as nat),
            match targets {
                Some(pids) => execution_targets(old(self)@, command) == Some(pids@),
                None => execution_targets(old(self)@, command) is None,
            },
    {
        match command {
            Command::ScrollLineUp => {
                self.engine.scroll(-1);
                self.engine.reveal_selection(viewport_height);
            },
            Command::ScrollLineDown => {
                self.engine.scroll(1);
                self.engine.reveal_selection(viewport_height);
            },
            Command::ScrollHalfPageUp => {
                self.engine.scroll_half_page(ScrollDirection::Up, viewport_height);
            },
            Command::ScrollHalfPageDown => {
                self.engine.scroll_half_page(ScrollDirection::Down, viewport_height);
            },
            Command::ScrollFullPageUp => {
                self.engine.scroll_full_page(ScrollDirection::Up, viewport_height);
            },
            Command::ScrollFullPageDown => {
                self.engine.scroll_full_page(ScrollDirection::Down, viewport_height);
            },
            Command::JumpTop => {
                self.engine.scroll_to_top();
                self.engine.reveal_selection(viewport_height);
            },
            Command::JumpBottom => {
                self.engine.scroll_to_bottom();
                self.engine.reveal_selection(viewport_height);
            },
            Command::ToggleGrouping => {
                self.engine.toggle_grouping();
            },
            Command::CycleSortByCount => {
                self.cycle_sort(SortKey::Pid);
            },
            Command::CycleSortByName => {
                self.cycle_sort(SortKey::Command);
            },
            Command::CycleSortByCpu => {
                self.cycle_sort(SortKey::Cpu);
            },
            Command::CycleSortByMem => {
                self.cycle_sort(SortKey::Mem);
            },
            Command::BeginFilterEdit => {
                if self.filter_input.is_none() {
                    self.filter_input = Some(copy_chars(&self.engine.view_state().filter));
                }
            },
            Command::AppendFilterChar(c) => {
                match &mut self.filter_input {
                    Some(text) => {
                        text.push(c);
                    },
                    None => {},
                }
            },
            Command::CommitFilter => {
                match self.filter_input.take() {
                    Some(text) => {
                        self.engine.set_filter_chars(text);
                    },
                    None => {},
                }
            },
            Command::CancelFilter => {
                if self.filter_input.is_some() {
                    self.filter_input = None;
                    self.engine.clear_filter();
                }
            },
            Command::TerminateSelected => {
                return match self.engine.selected_target() {
                    Ok(pids) => Some(pids),
                    Err(_) => None,
                };
            },
        }
        None
    }

    /// Takes one event and says what the host is to do.
    pub fn on_event(&mut self, event: Event, viewport_height: usize) -> (action: Action)
        requires
            old(self).wf(),
        ensures
            final(self).wf(),
            final(self)@ == reacted(old(self)@, event, viewport_height as nat).0,
            action@ == reacted(old(self)@, event, viewport_height as nat).1,
    {
        match event {
            Event::Interrupt => Action::Quit,
            Event::Tick => if self.paused {
                Action::Nothing
            } else {
                Action::Refresh { redraw: !self.show_help }
            },
            Event::Resize => {
                self.engine.reveal_selection(viewport_height);
                if self.show_help {
                    Action::DrawHelp
                } else {
                    Action::DrawWidgets
                }
            },
            Event::Key(key, modifier) => match key_input(
                key,
                modifier,
                self.filter_input.is_some(),
            ) {
                None => Action::Nothing,
                Some(Input::Quit) => Action::Quit,
                Some(Input::ToggleHelp) => {
                    self.show_help = !self.show_help;
                    if self.show_help {
                        Action::DrawHelp
                    } else {
                        Action::DrawWidgets
                    }
                },
                Some(Input::TogglePause) => {
                    self.paused = !self.paused;
                    Action::Nothing
                },
                Some(Input::CloseHelp) => if self.show_help {
                    self.show_help = false;
                    Action::DrawWidgets
                } else {
                    Action::Nothing
                },
                Some(Input::Run(command)) => {
                    let terminating = match command {
                        Command::TerminateSelected => true,
                        _ => false,
                    };
                    match self.execute(command, viewport_height) {
                        Some(pids) => Action::Terminate(pids),
                        None => if terminating || self.show_help {
                            Action::Nothing
                        } else {
                            Action::DrawProc
                        },
                    }
                },
            },
        }
    }

    /// Takes the outcome of sampling the process table: a snapshot
    /// replaces the one held, a failure is handed back and changes
    /// nothing.
    pub fn on_sample(&mut self, sample: Result<ProcessSnapshot, SamplingError>) -> (outcome:
        Result<(), SamplingError>)
        requires
            old(self).wf(),
            sample matches Ok(snapshot) ==> snapshot.wf(),
        ensures
            final(self).wf(),
            match sample {
                Ok(snapshot) => outcome is Ok && final(self)@ == (AppView {
                    engine: settled(
                        snapshot@,
                        snapshot.captured_at(),
                        old(self)@.engine.state,
                    ),
                    ..old(self)@
                }),
                Err(error) => outcome == Err::<(), SamplingError>(error) && final(self)@ == old(
                    self,
                )@,
            },
    {
        self.engine.refresh(sample)
    }

    /// The process list engine.
    pub fn engine(&self) -> (engine: &Engine)
        ensures
            engine@ == self@.engine,
            self.wf() ==> engine.wf(),
    {
        &self.engine
    }

    /// The help menu.
    pub fn help_menu(&self) -> (menu: &HelpMenu)
        ensures
            self.wf() ==> menu@ == help_text(),
    {
        &self.help_menu
    }

    /// Whether refreshing is paused.
    pub fn paused(&self) -> (paused: bool)
        ensures
            paused == self@.paused,
    {
        self.paused
    }

    /// Whether the help menu is shown.
    pub fn show_help(&self) -> (shown: bool)
        ensures
            shown == self@.show_help,
    {
        self.show_help
    }

    /// The filter text under edit, while the filter is edited.
    pub fn filter_input(&self) -> (text: Option<&Vec<char>>)
        ensures
            match text {
                Some(chars) => self@.filter_input == Some(chars@),
                None => self@.filter_input is None,
            },
    {
        self.filter_input.as_ref()
    }
}

} // verus!
