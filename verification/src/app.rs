//! The state of an interactive session: the activities on show and the
//! cursor that selects one of them.

use vstd::prelude::*;
use crate::db::session_views;
use crate::parser::{Session, SessionView};
use crate::util::{move_down_event, move_up_event};

verus! {

/// The activities on show, the selected one and its place in the list.
#[derive(Debug)]
pub struct App {
    pub sessions: Vec<Session>,
    pub selected_session: Option<Session>,
    pub selected_session_index: Option<usize>,
}

/// The mathematical content of an [`App`].
pub struct AppView {
    pub sessions: Seq<SessionView>,
    pub selected_session: Option<SessionView>,
    pub selected_session_index: Option<usize>,
}

impl View for App {
    type V = AppView;

    open spec fn view(&self) -> AppView {
        AppView {
            sessions: session_views(self.sessions@),
            selected_session: match self.selected_session {
                Some(s) => Some(s@),
                None => None,
            },
            selected_session_index: self.selected_session_index,
        }
    }
}

/// A key as far as the session tells keys apart.
#[derive(Clone, Copy, Debug, PartialEq, Eq, Structural)]
pub enum Key {
    Char(char),
    Up,
    Down,
    Other,
}

/// What a key asks for.
#[derive(Clone, Copy, Debug, PartialEq, Eq, Structural)]
pub enum Command {
    Quit,
    SelectNext,
    SelectPrevious,
    Nothing,
}

/// The activity at a place in the list, if the place exists.
pub open spec fn session_at(sessions: Seq<SessionView>, index: int) -> Option<SessionView> {
    if 0 <= index < sessions.len() {
        Some(sessions[index])
    } else {
        None
    }
}

/// The meaning of each key: `q` quits, `j` and the down arrow select the
/// next activity, `k` and the up arrow the previous one.
pub open spec fn command_of(key: Key) -> Command {
    match key {
        Key::Char(c) => if c == 'q' {
            Command::Quit
        } else if c == 'j' {
            Command::SelectNext
        } else if c == 'k' {
            Command::SelectPrevious
        } else {
            Command::Nothing
        },
        Key::Down => Command::SelectNext,
        Key::Up => Command::SelectPrevious,
        Key::Other => Command::Nothing,
    }
}

/// The place after `index` in a list of `len` activities, the first place
/// after the last; `None` in an empty list.
pub open spec fn next_index(index: Option<usize>, len: nat) -> Option<usize> {
    if len == 0 {
        None
    } else {
        match index {
            Some(i) => if i + 1 < len {
                Some((i + 1) as usize)
            } else {
                Some(0)
            },
            None => Some(0),
        }
    }
}

/// The place before `index` in a list of `len` activities, the last place
/// before the first; `None` in an empty list.
pub open spec fn previous_index(index: Option<usize>, len: nat) -> Option<usize> {
    if len == 0 {
        None
    } else {
        match index {
            Some(i) => if 0 < i < len {
                Some((i - 1) as usize)
            } else {
                Some((len - 1) as usize)
            },
            None => Some((len - 1) as usize),
        }
    }
}

/// The state with the cursor moved to `index`.
pub open spec fn selecting(app: AppView, index: Option<usize>) -> AppView {
    AppView {
        sessions: app.sessions,
        selected_session: match index {
            Some(i) => session_at(app.sessions, i as int),
            None => None,
        },
        selected_session_index: index,
    }
}

impl Default for App {
    /// A session with nothing on show and nothing selected.
    fn default() -> (app: App)
        ensures
            app@ == (AppView {
                sessions: Seq::empty(),
                selected_session: None,
                selected_session_index: None,
            }),
    {
        let app = App { selected_session_index: None, sessions: Vec::new(), selected_session: None };
        assert(session_views(app.sessions@) =~= Seq::<SessionView>::empty());
        app
    }
}

impl App {
    /// A session showing the given activities, with the cursor on the first
    /// place.
    pub fn new(all_sessions: Vec<Session>) -> (app: App)
        ensures
            app@ == selecting(
                AppView {
                    sessions: session_views(all_sessions@),
                    selected_session: None,
                    selected_session_index: None,
                },
                Some(0usize),
            ),
    {
        let selected = if all_sessions.len() > 0 {
            Some(all_sessions[0].duplicate())
        } else {
            None
        };
        App { sessions: all_sessions, selected_session_index: Some(0), selected_session: selected }
    }

    /// Selects the activity at `index`, or none where the list has no such
    /// place. The cursor itself stays.
    pub fn change_selected_session(&mut self, index: usize)
        ensures
            final(self)@ == (AppView {
                selected_session: session_at(old(self)@.sessions, index as int),
                ..old(self)@
            }),
    {
        self.selected_session = if index < self.sessions.len() {
            Some(self.sessions[index].duplicate())
        } else {
            None
        };
    }

    /// Puts the cursor on `index` and selects the activity there.
    pub fn select(&mut self, index: Option<usize>)
        ensures
            final(self)@ == selecting(old(self)@, index),
    {
        self.selected_session_index = index;
        match index {
            Some(i) => {
                self.change_selected_session(i);
            },
            None => {
                self.selected_session = None;
            },
        }
    }

    /// Tells what a key asks for.
    pub fn command(key: Key) -> (command: Command)
        ensures
            command == command_of(key),
    {
        match key {
            Key::Char(c) => if c == 'q' {
                Command::Quit
            } else if c == 'j' {
                Command::SelectNext
            } else if c == 'k' {
                Command::SelectPrevious
            } else {
                Command::Nothing
            },
            Key::Down => Command::SelectNext,
            Key::Up => Command::SelectPrevious,
            Key::Other => Command::Nothing,
        }
    }

    /// Takes one key: moves the cursor as the key asks, and tells whether the
    /// session is over.
    pub fn handle_key(&mut self, key: Key) -> (quit: bool)
        ensures
            quit == (command_of(key) == Command::Quit),
            final(self)@ == match command_of(key) {
                Command::SelectNext => selecting(
                    old(self)@,
                    next_index(old(self)@.selected_session_index, old(self)@.sessions.len()),
                ),
                Command::SelectPrevious => selecting(
                    old(self)@,
                    previous_index(old(self)@.selected_session_index, old(self)@.sessions.len()),
                ),
                _ => old(self)@,
            },
    {
        match App::command(key) {
            Command::Quit => true,
            Command::SelectNext => {
                move_down_event(self);
                false
            },
            Command::SelectPrevious => {
                move_up_event(self);
                false
            },
            Command::Nothing => false,
        }
    }
}

} // verus!
