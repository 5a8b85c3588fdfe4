use neotop::app::{setup_app, Action, App, Event};
use neotop::command::{key_input, Command, Input, Key, Modifier};
use neotop::record::{ProcessRecord, ProcessSnapshot, SamplingError};
use neotop::row::{DisplayRow, SortKey};
use neotop::terminate::{Termination, TerminationError, TerminationResult};

fn process(pid: u32, command: &str, cpu: u32) -> ProcessRecord {
    ProcessRecord {
        pid,
        ppid: 0,
        user: String::from("user"),
        priority: 20,
        nice: 0,
        virt: 0,
        res: 0,
        shr: 0,
        state: 'S',
        cpu_time: 0,
        cpu,
        mem: 0,
        start_time: 0,
        command: String::from(command),
    }
}

fn init_and_shells() -> ProcessSnapshot {
    ProcessSnapshot::new(0, vec![process(1, "init", 10), process(2, "sh", 20), process(3, "sh", 30)])
        .unwrap()
}

fn numbered(count: u32) -> ProcessSnapshot {
    ProcessSnapshot::new(0, (1..=count).map(|pid| process(pid, "worker", pid)).collect()).unwrap()
}

fn plain(c: char) -> Event {
    Event::Key(Key::Char(c), Modifier::Plain)
}

fn control(c: char) -> Event {
    Event::Key(Key::Char(c), Modifier::Control)
}

fn key(key: Key) -> Event {
    Event::Key(key, Modifier::Plain)
}

fn pids(app: &App) -> Vec<u32> {
    app.engine()
        .rows()
        .iter()
        .map(|row| match row {
            DisplayRow::Leaf(record) => record.pid,
            DisplayRow::Group(_) => panic!("a group row in a flat view"),
        })
        .collect()
}

fn input_text(app: &App) -> Option<String> {
    app.filter_input().map(|chars| chars.iter().collect())
}

#[test]
fn terminating_a_group_signals_each_member() {
    let mut app = App::with_settings(SortKey::Pid, true, true);
    assert_eq!(app.on_sample(Ok(init_and_shells())), Ok(()));
    let action = app.on_event(plain('x'), 20);
    assert_eq!(action, Action::Terminate(vec![2, 3]));
    let targets = match action {
        Action::Terminate(targets) => targets,
        _ => Vec::new(),
    };
    let mut run = Termination::new(targets);
    let mut attempts = Vec::new();
    while let Some(pid) = run.next_target() {
        attempts.push(pid);
        run.record(if pid == 2 { Err(TerminationError::PermissionDenied) } else { Ok(()) });
    }
    assert_eq!(attempts, vec![2, 3]);
    assert_eq!(
        run.into_results(),
        vec![
            TerminationResult { pid: 2, outcome: Err(TerminationError::PermissionDenied) },
            TerminationResult { pid: 3, outcome: Ok(()) },
        ]
    );
    assert_eq!(app.engine().row_count(), 2);
    assert_eq!(app.engine().selected(), Some(0));
}

#[test]
fn terminating_without_rows_does_nothing() {
    let mut app = setup_app();
    assert_eq!(app.on_event(plain('x'), 20), Action::Nothing);
    assert_eq!(app.execute(Command::TerminateSelected, 20), None);
}

#[test]
fn terminating_a_process_row_names_one_process() {
    let mut app = App::with_settings(SortKey::Pid, false, false);
    app.on_sample(Ok(init_and_shells())).unwrap();
    app.on_event(plain('j'), 20);
    assert_eq!(app.on_event(plain('x'), 20), Action::Terminate(vec![2]));
    assert_eq!(app.execute(Command::TerminateSelected, 20), Some(vec![2]));
    assert_eq!(pids(&app), vec![1, 2, 3]);
}

#[test]
fn app_starts_running_without_help_or_filter() {
    let app = setup_app();
    assert!(!app.paused());
    assert!(!app.show_help());
    assert_eq!(app.filter_input(), None);
    assert_eq!(app.engine().row_count(), 0);
    assert_eq!(app.engine().view_state().sort_key, SortKey::Cpu);
    assert!(app.engine().view_state().descending);
    assert!(!app.engine().view_state().grouping);
    assert_eq!(app.help_menu().len(), 24);
    let app = App::with_settings(SortKey::Mem, false, true);
    assert_eq!(app.engine().view_state().sort_key, SortKey::Mem);
    assert!(!app.engine().view_state().descending);
    assert!(app.engine().view_state().grouping);
}

#[test]
fn keys_outside_filter_editing() {
    let run = |command| Some(Input::Run(command));
    let plain = |c| key_input(Key::Char(c), Modifier::Plain, false);
    let control = |c| key_input(Key::Char(c), Modifier::Control, false);
    let special = |key| key_input(key, Modifier::Plain, false);
    assert_eq!(plain('q'), Some(Input::Quit));
    assert_eq!(plain('?'), Some(Input::ToggleHelp));
    assert_eq!(plain(' '), Some(Input::TogglePause));
    assert_eq!(plain('j'), run(Command::ScrollLineDown));
    assert_eq!(plain('k'), run(Command::ScrollLineUp));
    assert_eq!(plain('g'), run(Command::JumpTop));
    assert_eq!(plain('G'), run(Command::JumpBottom));
    assert_eq!(plain('x'), run(Command::TerminateSelected));
    assert_eq!(plain('p'), run(Command::CycleSortByCount));
    assert_eq!(plain('n'), run(Command::CycleSortByName));
    assert_eq!(plain('c'), run(Command::CycleSortByCpu));
    assert_eq!(plain('m'), run(Command::CycleSortByMem));
    assert_eq!(plain('/'), run(Command::BeginFilterEdit));
    assert_eq!(plain('z'), None);
    assert_eq!(plain('Q'), None);
    assert_eq!(special(Key::Down), run(Command::ScrollLineDown));
    assert_eq!(special(Key::Up), run(Command::ScrollLineUp));
    assert_eq!(special(Key::Home), run(Command::JumpTop));
    assert_eq!(special(Key::End), run(Command::JumpBottom));
    assert_eq!(special(Key::Tab), run(Command::ToggleGrouping));
    assert_eq!(special(Key::Esc), Some(Input::CloseHelp));
    assert_eq!(special(Key::Enter), None);
    assert_eq!(special(Key::Other), None);
    assert_eq!(control('c'), Some(Input::Quit));
    assert_eq!(control('d'), run(Command::ScrollHalfPageDown));
    assert_eq!(control('u'), run(Command::ScrollHalfPageUp));
    assert_eq!(control('f'), run(Command::ScrollFullPageDown));
    assert_eq!(control('b'), run(Command::ScrollFullPageUp));
    assert_eq!(control('q'), None);
    assert_eq!(control('j'), None);
    assert_eq!(key_input(Key::Down, Modifier::Control, false), None);
    assert_eq!(key_input(Key::Char('q'), Modifier::Other, false), None);
    assert_eq!(key_input(Key::Tab, Modifier::Other, false), None);
}

#[test]
fn keys_while_editing_the_filter() {
    let run = |command| Some(Input::Run(command));
    assert_eq!(
        key_input(Key::Char('q'), Modifier::Plain, true),
        run(Command::AppendFilterChar('q'))
    );
    assert_eq!(
        key_input(Key::Char('/'), Modifier::Plain, true),
        run(Command::AppendFilterChar('/'))
    );
    assert_eq!(key_input(Key::Enter, Modifier::Plain, true), run(Command::CommitFilter));
    assert_eq!(key_input(Key::Esc, Modifier::Plain, true), run(Command::CancelFilter));
    assert_eq!(key_input(Key::Char('c'), Modifier::Control, true), run(Command::CancelFilter));
    assert_eq!(key_input(Key::Char('d'), Modifier::Control, true), None);
    assert_eq!(key_input(Key::Down, Modifier::Plain, true), None);
    assert_eq!(key_input(Key::Tab, Modifier::Plain, true), None);
    assert_eq!(key_input(Key::Char('a'), Modifier::Other, true), None);
    assert_eq!(key_input(Key::Enter, Modifier::Control, true), None);
}

#[test]
fn ticks_refresh_unless_paused() {
    let mut app = setup_app();
    assert_eq!(app.on_event(Event::Tick, 20), Action::Refresh { redraw: true });
    assert_eq!(app.on_event(plain(' '), 20), Action::Nothing);
    assert!(app.paused());
    assert_eq!(app.on_event(Event::Tick, 20), Action::Nothing);
    app.on_sample(Ok(numbered(5))).unwrap();
    assert_eq!(app.on_event(plain('j'), 20), Action::DrawProc);
    assert_eq!(app.engine().selected(), Some(1));
    assert_eq!(app.on_event(plain(' '), 20), Action::Nothing);
    assert!(!app.paused());
    assert_eq!(app.on_event(Event::Tick, 20), Action::Refresh { redraw: true });
}

#[test]
fn help_menu_is_toggled_and_closed() {
    let mut app = setup_app();
    app.on_sample(Ok(numbered(5))).unwrap();
    assert_eq!(app.on_event(key(Key::Esc), 20), Action::Nothing);
    assert_eq!(app.on_event(Event::Resize, 20), Action::DrawWidgets);
    assert_eq!(app.on_event(plain('?'), 20), Action::DrawHelp);
    assert!(app.show_help());
    assert_eq!(app.on_event(Event::Resize, 20), Action::DrawHelp);
    assert_eq!(app.on_event(Event::Tick, 20), Action::Refresh { redraw: false });
    assert_eq!(app.on_event(plain('j'), 20), Action::Nothing);
    assert_eq!(app.engine().selected(), Some(1));
    assert_eq!(app.on_event(plain('?'), 20), Action::DrawWidgets);
    assert!(!app.show_help());
    assert_eq!(app.on_event(plain('?'), 20), Action::DrawHelp);
    assert_eq!(app.on_event(key(Key::Esc), 20), Action::DrawWidgets);
    assert!(!app.show_help());
}

#[test]
fn quit_and_interrupt_end_the_loop() {
    let mut app = setup_app();
    assert_eq!(app.on_event(plain('q'), 20), Action::Quit);
    assert_eq!(app.on_event(control('c'), 20), Action::Quit);
    assert_eq!(app.on_event(Event::Interrupt, 20), Action::Quit);
    assert_eq!(app.on_event(plain('z'), 20), Action::Nothing);
    assert_eq!(app.on_event(key(Key::Other), 20), Action::Nothing);
}

#[test]
fn navigation_keys_move_the_selection() {
    let mut app = App::with_settings(SortKey::Pid, false, false);
    app.on_sample(Ok(numbered(100))).unwrap();
    let selected = |app: &App| app.engine().selected();
    assert_eq!(app.on_event(key(Key::Down), 10), Action::DrawProc);
    assert_eq!(selected(&app), Some(1));
    app.on_event(plain('k'), 10);
    assert_eq!(selected(&app), Some(0));
    app.on_event(key(Key::Up), 10);
    assert_eq!(selected(&app), Some(0));
    app.on_event(control('d'), 10);
    assert_eq!(selected(&app), Some(5));
    app.on_event(control('f'), 10);
    assert_eq!(selected(&app), Some(15));
    assert_eq!(app.engine().scroll_offset(), 6);
    app.on_event(control('u'), 10);
    assert_eq!(selected(&app), Some(10));
    app.on_event(control('b'), 10);
    assert_eq!(selected(&app), Some(0));
    assert_eq!(app.engine().scroll_offset(), 0);
    app.on_event(plain('G'), 10);
    assert_eq!(selected(&app), Some(99));
    app.on_event(plain('j'), 10);
    assert_eq!(selected(&app), Some(99));
    app.on_event(key(Key::Home), 10);
    assert_eq!(selected(&app), Some(0));
    app.on_event(key(Key::End), 10);
    assert_eq!(selected(&app), Some(99));
    app.on_event(plain('g'), 10);
    assert_eq!(selected(&app), Some(0));
}

#[test]
fn sort_keys_cycle_column_and_direction() {
    let mut app = setup_app();
    app.on_sample(Ok(init_and_shells())).unwrap();
    assert_eq!(pids(&app), vec![3, 2, 1]);
    assert_eq!(app.on_event(plain('c'), 20), Action::DrawProc);
    assert_eq!(app.engine().view_state().sort_key, SortKey::Cpu);
    assert!(!app.engine().view_state().descending);
    assert_eq!(pids(&app), vec![1, 2, 3]);
    app.on_event(plain('n'), 20);
    assert_eq!(app.engine().view_state().sort_key, SortKey::Command);
    assert!(!app.engine().view_state().descending);
    assert_eq!(pids(&app), vec![1, 2, 3]);
    app.on_event(plain('n'), 20);
    assert!(app.engine().view_state().descending);
    assert_eq!(pids(&app), vec![2, 3, 1]);
    app.on_event(plain('p'), 20);
    assert_eq!(app.engine().view_state().sort_key, SortKey::Pid);
    assert!(app.engine().view_state().descending);
    assert_eq!(pids(&app), vec![3, 2, 1]);
    app.on_event(plain('m'), 20);
    assert_eq!(app.engine().view_state().sort_key, SortKey::Mem);
    assert_eq!(pids(&app), vec![1, 2, 3]);
    app.on_event(key(Key::Tab), 20);
    assert!(app.engine().view_state().grouping);
    assert_eq!(app.engine().row_count(), 2);
}

#[test]
fn filter_is_edited_and_accepted() {
    let mut app = App::with_settings(SortKey::Pid, false, false);
    app.on_sample(Ok(init_and_shells())).unwrap();
    assert_eq!(app.on_event(plain('/'), 20), Action::DrawProc);
    assert_eq!(input_text(&app), Some(String::new()));
    assert_eq!(app.on_event(plain('s'), 20), Action::DrawProc);
    assert_eq!(app.on_event(plain('q'), 20), Action::DrawProc);
    assert_eq!(input_text(&app), Some(String::from("sq")));
    assert_eq!(pids(&app), vec![1, 2, 3]);
    assert_eq!(app.on_event(key(Key::Down), 20), Action::Nothing);
    assert_eq!(app.engine().selected(), Some(0));
    assert_eq!(app.on_event(key(Key::Enter), 20), Action::DrawProc);
    assert_eq!(input_text(&app), None);
    assert_eq!(pids(&app), Vec::<u32>::new());
    app.on_event(plain('/'), 20);
    assert_eq!(input_text(&app), Some(String::from("sq")));
    assert_eq!(app.on_event(key(Key::Esc), 20), Action::DrawProc);
    assert_eq!(input_text(&app), None);
    assert!(app.engine().view_state().filter.is_empty());
    assert_eq!(pids(&app), vec![1, 2, 3]);
    app.on_event(plain('/'), 20);
    app.on_event(plain('s'), 20);
    app.on_event(plain('h'), 20);
    app.on_event(key(Key::Enter), 20);
    assert_eq!(pids(&app), vec![2, 3]);
    app.on_event(plain('/'), 20);
    assert_eq!(app.on_event(control('c'), 20), Action::DrawProc);
    assert_eq!(input_text(&app), None);
    assert_eq!(pids(&app), vec![1, 2, 3]);
}

#[test]
fn refresh_during_filter_edit_keeps_the_input() {
    let mut app = App::with_settings(SortKey::Pid, false, false);
    app.on_sample(Ok(init_and_shells())).unwrap();
    app.on_event(plain('/'), 20);
    app.on_event(plain('s'), 20);
    assert_eq!(app.on_event(Event::Tick, 20), Action::Refresh { redraw: true });
    assert_eq!(app.on_sample(Ok(numbered(4))), Ok(()));
    assert_eq!(input_text(&app), Some(String::from("s")));
    assert_eq!(app.on_sample(Err(SamplingError::QueryFailed)), Err(SamplingError::QueryFailed));
    assert_eq!(input_text(&app), Some(String::from("s")));
    assert_eq!(pids(&app), vec![1, 2, 3, 4]);
    app.on_event(plain('h'), 20);
    assert_eq!(input_text(&app), Some(String::from("sh")));
    app.on_event(key(Key::Enter), 20);
    assert_eq!(pids(&app), Vec::<u32>::new());
}

#[test]
fn filter_commands_outside_their_mode_do_nothing() {
    let mut app = App::with_settings(SortKey::Pid, false, false);
    app.on_sample(Ok(init_and_shells())).unwrap();
    app.engine();
    assert_eq!(app.execute(Command::AppendFilterChar('s'), 20), None);
    assert_eq!(input_text(&app), None);
    assert_eq!(app.execute(Command::CommitFilter, 20), None);
    assert_eq!(app.execute(Command::CancelFilter, 20), None);
    assert_eq!(pids(&app), vec![1, 2, 3]);
    app.execute(Command::BeginFilterEdit, 20);
    app.execute(Command::AppendFilterChar('i'), 20);
    app.execute(Command::BeginFilterEdit, 20);
    assert_eq!(input_text(&app), Some(String::from("i")));
    app.execute(Command::CommitFilter, 20);
    assert_eq!(pids(&app), vec![1]);
    app.execute(Command::CancelFilter, 20);
    assert_eq!(pids(&app), vec![1]);
}

#[test]
fn failed_sample_keeps_the_previous_view() {
    let mut app = App::with_settings(SortKey::Pid, false, false);
    app.on_sample(Ok(init_and_shells())).unwrap();
    app.on_event(plain('G'), 20);
    assert_eq!(app.on_sample(Err(SamplingError::QueryFailed)), Err(SamplingError::QueryFailed));
    assert_eq!(pids(&app), vec![1, 2, 3]);
    assert_eq!(app.engine().selected(), Some(2));
    assert_eq!(app.on_sample(Ok(numbered(1))), Ok(()));
    assert_eq!(app.engine().selected(), Some(0));
}

#[test]
fn commands_run_through_execute() {
    let mut app = App::with_settings(SortKey::Pid, false, false);
    app.on_sample(Ok(numbered(50))).unwrap();
    let selected = |app: &App| app.engine().selected();
    app.execute(Command::ScrollLineDown, 8);
    assert_eq!(selected(&app), Some(1));
    app.execute(Command::ScrollHalfPageDown, 8);
    assert_eq!(selected(&app), Some(5));
    app.execute(Command::ScrollFullPageDown, 8);
    assert_eq!(selected(&app), Some(13));
    app.execute(Command::ScrollHalfPageUp, 8);
    assert_eq!(selected(&app), Some(9));
    app.execute(Command::ScrollFullPageUp, 8);
    assert_eq!(selected(&app), Some(1));
    app.execute(Command::ScrollLineUp, 8);
    assert_eq!(selected(&app), Some(0));
    app.execute(Command::JumpBottom, 8);
    assert_eq!(selected(&app), Some(49));
    app.execute(Command::JumpTop, 8);
    assert_eq!(selected(&app), Some(0));
    app.execute(Command::ToggleGrouping, 8);
    assert_eq!(app.engine().row_count(), 1);
    app.execute(Command::CycleSortByCount, 8);
    assert!(app.engine().view_state().descending);
    app.execute(Command::CycleSortByCpu, 8);
    assert_eq!(app.engine().view_state().sort_key, SortKey::Cpu);
    app.execute(Command::CycleSortByMem, 8);
    assert_eq!(app.engine().view_state().sort_key, SortKey::Mem);
    app.execute(Command::CycleSortByName, 8);
    assert_eq!(app.engine().view_state().sort_key, SortKey::Command);
}
