//! The states and actions of the terminal interface, and the key that asks
//! for each action.
use vstd::prelude::*;

verus! {

/// Whether the interface shows its splash screen or runs.
#[derive(Clone, Copy, PartialEq, Eq, Structural, Debug)]
pub enum State {
    Running,
    Splash,
}

/// What the user asks the interface to do.
#[derive(Clone, Copy, PartialEq, Eq, Structural, Debug)]
pub enum Action {
    ScrollUp,
    ScrollDown,
    FocusLeft,
    FocusRight,
    NextTab,
    PreviousTab,
    SendRequest,
    ApplyCommits,
    RemoveCurrentSelected,
    TruncateCurrentSelected,
    Quit,
    DiffTab,
    OpenAITab,
    ClaudeTab,
    GeminiTab,
}

/// The keys the interface tells apart.
#[derive(Clone, Copy, PartialEq, Eq, Structural, Debug)]
pub enum KeyCode {
    Esc,
    Up,
    Down,
    Left,
    Right,
    Char(char),
    /// Any other key.
    Other,
}

/// An event of the terminal: a key press, or anything else.
#[derive(Clone, Copy, PartialEq, Eq, Structural, Debug)]
pub enum TuiEvent {
    Key(KeyCode),
    Other,
}

/// The action a key asks for.
pub open spec fn key_action(k: KeyCode) -> Option<Action> {
    match k {
        KeyCode::Esc => Some(Action::Quit),
        KeyCode::Up => Some(Action::ScrollUp),
        KeyCode::Down => Some(Action::ScrollDown),
        KeyCode::Left => Some(Action::FocusLeft),
        KeyCode::Right => Some(Action::FocusRight),
        KeyCode::Char(c) => if c == 'q' || c == 'Q' {
            Some(Action::Quit)
        } else if c == 'k' {
            Some(Action::ScrollUp)
        } else if c == 'j' {
            Some(Action::ScrollDown)
        } else if c == 'h' {
            Some(Action::FocusLeft)
        } else if c == 'l' {
            Some(Action::FocusRight)
        } else if c == 'd' {
            Some(Action::RemoveCurrentSelected)
        } else if c == 'p' {
            Some(Action::SendRequest)
        } else if c == 'x' {
            Some(Action::ApplyCommits)
        } else if c == '1' {
            Some(Action::DiffTab)
        } else if c == '2' {
            Some(Action::OpenAITab)
        } else if c == '3' {
            Some(Action::ClaudeTab)
        } else if c == '4' {
            Some(Action::GeminiTab)
        } else {
            None
        },
        KeyCode::Other => None,
    }
}

/// The action an event asks for: Esc and q quit, the arrows and h, j, k, l
/// move, d removes, p sends, x applies, 1 to 4 pick a tab; nothing else does.
pub fn get_tui_action(event: TuiEvent) -> (r: Option<Action>)
    ensures
        r == match event {
            TuiEvent::Key(k) => key_action(k),
            TuiEvent::Other => None,
        },
{
    match event {
        TuiEvent::Key(k) => match k {
            KeyCode::Esc => Some(Action::Quit),
            KeyCode::Char('q') | KeyCode::Char('Q') => Some(Action::Quit),
            KeyCode::Char('k') | KeyCode::Up => Some(Action::ScrollUp),
            KeyCode::Char('j') | KeyCode::Down => Some(Action::ScrollDown),
            KeyCode::Char('h') | KeyCode::Left => Some(Action::FocusLeft),
            KeyCode::Char('l') | KeyCode::Right => Some(Action::FocusRight),
            KeyCode::Char('d') => Some(Action::RemoveCurrentSelected),
            KeyCode::Char('p') => Some(Action::SendRequest),
            KeyCode::Char('x') => Some(Action::ApplyCommits),
            KeyCode::Char('1') => Some(Action::DiffTab),
            KeyCode::Char('2') => Some(Action::OpenAITab),
            KeyCode::Char('3') => Some(Action::ClaudeTab),
            KeyCode::Char('4') => Some(Action::GeminiTab),
            _ => None,
        },
        TuiEvent::Other => None,
    }
}

} // verus!
