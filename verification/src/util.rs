//! Cursor movement over the list of activities.

use vstd::prelude::*;
use crate::app::{next_index, previous_index, selecting, App};

verus! {

/// Moves the cursor one place down the list and selects the activity there.
/// Past the last place the cursor returns to the first; in an empty list
/// nothing is selected.
pub fn move_down_event(app: &mut App)
    ensures
        final(app)@ == selecting(
            old(app)@,
            next_index(old(app)@.selected_session_index, old(app)@.sessions.len()),
        ),
{
    let max_idx: usize = app.sessions.len();
    let new_idx: Option<usize> = if max_idx == 0 {
        None
    } else {
        match app.selected_session_index {
            Some(index) => if index < max_idx - 1 {
                Some(index + 1)
            } else {
                Some(0)
            },
            None => Some(0),
        }
    };
    app.select(new_idx);
}

/// Moves the cursor one place up the list and selects the activity there.
/// Before the first place the cursor wraps to the last; in an empty list
/// nothing is selected.
pub fn move_up_event(app: &mut App)
    ensures
        final(app)@ == selecting(
            old(app)@,
            previous_index(old(app)@.selected_session_index, old(app)@.sessions.len()),
        ),
{
    let max_idx: usize = app.sessions.len();
    let new_idx: Option<usize> = if max_idx == 0 {
        None
    } else {
        match app.selected_session_index {
            Some(index) => if 0 < index && index < max_idx {
                Some(index - 1)
            } else {
                Some(max_idx - 1)
            },
            None => Some(max_idx - 1),
        }
    };
    app.select(new_idx);
}

} // verus!
