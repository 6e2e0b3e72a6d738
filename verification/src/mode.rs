//! Editing modes, the key events the editor reacts to, and what it asks its
//! caller to do with files.
use vstd::prelude::*;

verus! {

/// The editing mode of a tab.
#[derive(Clone, Copy, PartialEq, Eq, Debug, Structural)]
pub enum Mode {
    Normal,
    Insert,
    Visual,
    Command,
}

/// A key, as the editor tells keys apart.
#[derive(Clone, Copy, PartialEq, Eq, Debug, Structural)]
pub enum KeyCode {
    Char(char),
    Left,
    Right,
    Up,
    Down,
    Esc,
    Enter,
    Backspace,
    /// Any other key.
    Other,
}

/// A key press: the key, whether Control was held, and whether any other modifier was.
#[derive(Clone, Copy, PartialEq, Eq, Debug, Structural)]
pub struct KeyEvent {
    pub code: KeyCode,
    pub ctrl: bool,
    pub other_modifiers: bool,
}

/// An input event: a key press, or anything else (which the editor ignores).
#[derive(Clone, Copy, PartialEq, Eq, Debug, Structural)]
pub enum Event {
    Key(KeyEvent),
    Other,
}

/// Where a file that was asked for is to be opened.
#[derive(Clone, Copy, PartialEq, Eq, Debug, Structural)]
pub enum OpenTarget {
    /// In a new buffer shown in the current tab (`:e`).
    CurrentTab,
    /// In a new buffer shown in a new tab (`:tabnew`).
    NewTab,
}

/// What the editor needs its caller to do before a command can finish.
pub enum Request {
    /// Nothing: the event has been handled in full.
    Done,
    /// Read the file at `path`, then call `App::finish_open`.
    Read { path: String, target: OpenTarget },
    /// Write `text` to the file at `path`, then call `App::finish_save`.
    Write { path: String, text: String, close_after: bool },
}

/// Control+C with no other modifier: the editor quits at once.
pub open spec fn is_force_quit_spec(ev: Event) -> bool {
    ev == Event::Key(KeyEvent { code: KeyCode::Char('c'), ctrl: true, other_modifiers: false })
}

/// Whether `ev` is Control+C with no other modifier.
pub fn is_force_quit(ev: &Event) -> (r: bool)
    ensures
        r == is_force_quit_spec(*ev),
{
    match ev {
        Event::Key(k) => match k.code {
            KeyCode::Char(c) => c == 'c' && k.ctrl && !k.other_modifiers,
            _ => false,
        },
        Event::Other => false,
    }
}

/// A request as a value.
pub enum RequestView {
    Done,
    Read { path: Seq<char>, target: OpenTarget },
    Write { path: Seq<char>, text: Seq<char>, close_after: bool },
}

impl View for Request {
    type V = RequestView;

    open spec fn view(&self) -> RequestView {
        match self {
            Request::Done => RequestView::Done,
            Request::Read { path, target } => RequestView::Read { path: path@, target: *target },
            Request::Write { path, text, close_after } => RequestView::Write {
                path: path@,
                text: text@,
                close_after: *close_after,
            },
        }
    }
}

} // verus!
