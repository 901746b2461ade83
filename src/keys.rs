use vstd::prelude::*;

verus! {

/// The key of an input event.
#[derive(Clone, Copy, Debug, PartialEq, Eq, Structural)]
pub enum Key {
    Char(char),
    Backspace,
    Enter,
    Esc,
    Left,
    Right,
    Up,
    Down,
    Other,
}

/// Whether an event is a press, a repeat or a release.
#[derive(Clone, Copy, Debug, PartialEq, Eq, Structural)]
pub enum KeyKind {
    Press,
    Repeat,
    Release,
}

/// Modifier bits of a key event.
pub const SHIFT: u8 = 1;
pub const CONTROL: u8 = 2;
pub const ALT: u8 = 4;

/// One keyboard event: the key, the set of modifiers held, and its kind.
#[derive(Clone, Copy, Debug, PartialEq, Eq, Structural)]
pub struct KeyEvent {
    pub code: Key,
    pub modifiers: u8,
    pub kind: KeyKind,
}

/// What the normal mode does with a key.
#[derive(Clone, Copy, Debug, PartialEq, Eq, Structural)]
pub enum Command {
    Quit,
    Save,
    Undo,
    Redo,
    Insert(char),
    Backspace,
    Enter,
    Left,
    Right,
    Up,
    Down,
    Ignore,
}

/// What the caller is asked to do after a key.
#[derive(Clone, Copy, Debug, PartialEq, Eq, Structural)]
pub enum Action {
    Continue,
    Quit,
    Save,
}

pub open spec fn has_alt(m: u8) -> bool {
    m & ALT != 0
}

pub open spec fn has_ctrl(m: u8) -> bool {
    m & CONTROL != 0
}

/// The normal-mode meaning of a key: Alt+q quits, Alt+s saves, Ctrl+z undoes,
/// Ctrl+x redoes, any other character is typed.
pub open spec fn command_of(ev: KeyEvent) -> Command {
    match ev.code {
        Key::Char(c) => if c == 'q' && has_alt(ev.modifiers) {
            Command::Quit
        } else if c == 's' && has_alt(ev.modifiers) {
            Command::Save
        } else if c == 'z' && has_ctrl(ev.modifiers) {
            Command::Undo
        } else if c == 'x' && has_ctrl(ev.modifiers) {
            Command::Redo
        } else {
            Command::Insert(c)
        },
        Key::Backspace => Command::Backspace,
        Key::Enter => Command::Enter,
        Key::Left => Command::Left,
        Key::Right => Command::Right,
        Key::Up => Command::Up,
        Key::Down => Command::Down,
        _ => Command::Ignore,
    }
}

/// The normal-mode meaning of a key.
pub fn classify(ev: &KeyEvent) -> (r: Command)
    ensures
        r == command_of(*ev),
{
    let alt = ev.modifiers & ALT != 0;
    let ctrl = ev.modifiers & CONTROL != 0;
    match ev.code {
        Key::Char(c) => {
            if c == 'q' && alt {
                Command::Quit
            } else if c == 's' && alt {
                Command::Save
            } else if c == 'z' && ctrl {
                Command::Undo
            } else if c == 'x' && ctrl {
                Command::Redo
            } else {
                Command::Insert(c)
            }
        },
        Key::Backspace => Command::Backspace,
        Key::Enter => Command::Enter,
        Key::Left => Command::Left,
        Key::Right => Command::Right,
        Key::Up => Command::Up,
        Key::Down => Command::Down,
        _ => Command::Ignore,
    }
}

/// Alt+f, which opens the search prompt.
pub open spec fn is_search_key(ev: KeyEvent) -> bool {
    ev.code == Key::Char('f') && has_alt(ev.modifiers)
}

} // verus!
