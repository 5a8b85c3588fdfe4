//! The commands of the process list, and the keys that give them.

use vstd::prelude::*;

verus! {

/// What the user can ask of the process list.
#[derive(Debug, Clone, Copy, PartialEq, Eq)]
pub enum Command {
    ScrollLineUp,
    ScrollLineDown,
    ScrollHalfPageUp,
    ScrollHalfPageDown,
    ScrollFullPageUp,
    ScrollFullPageDown,
    JumpTop,
    JumpBottom,
    ToggleGrouping,
    CycleSortByCount,
    CycleSortByName,
    CycleSortByCpu,
    CycleSortByMem,
    BeginFilterEdit,
    AppendFilterChar(char),
    CommitFilter,
    CancelFilter,
    TerminateSelected,
}

/// A key of the keyboard, as far as the program tells keys apart.
#[derive(Debug, Clone, Copy, PartialEq, Eq)]
pub enum Key {
    Char(char),
    Up,
    Down,
    Home,
    End,
    Esc,
    Tab,
    Enter,
    Other,
}

/// What was held down with the key.
#[derive(Debug, Clone, Copy, PartialEq, Eq)]
pub enum Modifier {
    Plain,
    Control,
    Other,
}

/// What a key press asks for.
#[derive(Debug, Clone, Copy, PartialEq, Eq)]
pub enum Input {
    Quit,
    ToggleHelp,
    TogglePause,
    CloseHelp,
    Run(Command),
}

/// The meaning of a plain character outside filter editing.
pub open spec fn plain_binding(c: char) -> Option<Input> {
    if c == 'q' {
        Some(Input::Quit)
    } else if c == '?' {
        Some(Input::ToggleHelp)
    } else if c == ' ' {
        Some(Input::TogglePause)
    } else if c == 'j' {
        Some(Input::Run(Command::ScrollLineDown))
    } else if c == 'k' {
        Some(Input::Run(Command::ScrollLineUp))
    } else if c == 'g' {
        Some(Input::Run(Command::JumpTop))
    } else if c == 'G' {
        Some(Input::Run(Command::JumpBottom))
    } else if c == 'x' {
        Some(Input::Run(Command::TerminateSelected))
    } else if c == 'p' {
        Some(Input::Run(Command::CycleSortByCount))
    } else if c == 'n' {
        Some(Input::Run(Command::CycleSortByName))
    } else if c == 'c' {
        Some(Input::Run(Command::CycleSortByCpu))
    } else if c == 'm' {
        Some(Input::Run(Command::CycleSortByMem))
    } else if c == '/' {
        Some(Input::Run(Command::BeginFilterEdit))
    } else {
        None
    }
}

/// The meaning of a character typed with the control key outside filter
/// editing.
pub open spec fn control_binding(c: char) -> Option<Input> {
    if c == 'c' {
        Some(Input::Quit)
    } else if c == 'd' {
        Some(Input::Run(Command::ScrollHalfPageDown))
    } else if c == 'u' {
        Some(Input::Run(Command::ScrollHalfPageUp))
    } else if c == 'f' {
        Some(Input::Run(Command::ScrollFullPageDown))
    } else if c == 'b' {
        Some(Input::Run(Command::ScrollFullPageUp))
    } else {
        None
    }
}

/// The meaning of a key press. While the filter is edited, plain
/// characters go into the filter, Enter accepts it, and Escape or
/// control-c give it up; all other keys mean nothing then.
pub open spec fn binding(key: Key, modifier: Modifier, editing: bool) -> Option<Input> {
    if editing {
        match (modifier, key) {
            (Modifier::Plain, Key::Char(c)) => Some(Input::Run(Command::AppendFilterChar(c))),
            (Modifier::Plain, Key::Enter) => Some(Input::Run(Command::CommitFilter)),
            (Modifier::Plain, Key::Esc) => Some(Input::Run(Command::CancelFilter)),
            (Modifier::Control, Key::Char(c)) => if c == 'c' {
                Some(Input::Run(Command::CancelFilter))
            } else {
                None
            },
            _ => None,
        }
    } else {
        match (modifier, key) {
            (Modifier::Plain, Key::Char(c)) => plain_binding(c),
            (Modifier::Plain, Key::Down) => Some(Input::Run(Command::ScrollLineDown)),
            (Modifier::Plain, Key::Up) => Some(Input::Run(Command::ScrollLineUp)),
            (Modifier::Plain, Key::Home) => Some(Input::Run(Command::JumpTop)),
            (Modifier::Plain, Key::End) => Some(Input::Run(Command::JumpBottom)),
            (Modifier::Plain, Key::Esc) => Some(Input::CloseHelp),
            (Modifier::Plain, Key::Tab) => Some(Input::Run(Command::ToggleGrouping)),
            (Modifier::Control, Key::Char(c)) => control_binding(c),
            _ => None,
        }
    }
}

fn plain_input(c: char) -> (input: Option<Input>)
    ensures
        input == plain_binding(c),
{
    if c == 'q' {
        Some(Input::Quit)
    } else if c == '?' {
        Some(Input::ToggleHelp)
    } else if c == ' ' {
        Some(Input::TogglePause)
    } else if c == 'j' {
        Some(Input::Run(Command::ScrollLineDown))
    } else if c == 'k' {
        Some(Input::Run(Command::ScrollLineUp))
    } else if c == 'g' {
        Some(Input::Run(Command::JumpTop))
    } else if c == 'G' {
        Some(Input::Run(Command::JumpBottom))
    } else if c == 'x' {
        Some(Input::Run(Command::TerminateSelected))
    } else if c == 'p' {
        Some(Input::Run(Command::CycleSortByCount))
    } else if c == 'n' {
        Some(Input::Run(Command::CycleSortByName))
    } else if c == 'c' {
        Some(Input::Run(Command::CycleSortByCpu))
    } else if c == 'm' {
        Some(Input::Run(Command::CycleSortByMem))
    } else if c == '/' {
        Some(Input::Run(Command::BeginFilterEdit))
    } else {
        None
    }
}

fn control_input(c: char) -> (input: Option<Input>)
    ensures
        input == control_binding(c),
{
    if c == 'c' {
        Some(Input::Quit)
    } else if c == 'd' {
        Some(Input::Run(Command::ScrollHalfPageDown))
    } else if c == 'u' {
        Some(Input::Run(Command::ScrollHalfPageUp))
    } else if c == 'f' {
        Some(Input::Run(Command::ScrollFullPageDown))
    } else if c == 'b' {
        Some(Input::Run(Command::ScrollFullPageUp))
    } else {
        None
    }
}

/// The input that a key press gives, given whether the filter is being
/// edited.
pub fn key_input(key: Key, modifier: Modifier, editing: bool) -> (input: Option<Input>)
    ensures
        input == binding(key, modifier, editing),
{
    if editing {
        match (modifier, key) {
            (Modifier::Plain, Key::Char(c)) => Some(Input::Run(Command::AppendFilterChar(c))),
            (Modifier::Plain, Key::Enter) => Some(Input::Run(Command::CommitFilter)),
            (Modifier::Plain, Key::Esc) => Some(Input::Run(Command::CancelFilter)),
            (Modifier::Control, Key::Char(c)) => if c == 'c' {
                Some(Input::Run(Command::CancelFilter))
            } else {
                None
            },
            _ => None,
        }
    } else {
        match (modifier, key) {
            (Modifier::Plain, Key::Char(c)) => plain_input(c),
            (Modifier::Plain, Key::Down) => Some(Input::Run(Command::ScrollLineDown)),
            (Modifier::Plain, Key::Up) => Some(Input::Run(Command::ScrollLineUp)),
            (Modifier::Plain, Key::Home) => Some(Input::Run(Command::JumpTop)),
            (Modifier::Plain, Key::End) => Some(Input::Run(Command::JumpBottom)),
            (Modifier::Plain, Key::Esc) => Some(Input::CloseHelp),
            (Modifier::Plain, Key::Tab) => Some(Input::Run(Command::ToggleGrouping)),
            (Modifier::Control, Key::Char(c)) => control_input(c),
            _ => None,
        }
    }
}

} // verus!
