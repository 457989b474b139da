use ridelog::app::{App, Command, Key};
use ridelog::parser::Session;
use ridelog::util::{move_down_event, move_up_event};

fn activity(start: i64) -> Session {
    Session {
        id: None,
        start_time: start,
        total_elapsed_time: 1,
        total_distance: 0,
        avg_power: 0,
        total_moving_time: 0,
        avg_heart_rate: 0,
        threshold_power: 0,
        sport: "cycling".to_string(),
        sub_sport: "road_cycling".to_string(),
        avg_cadence: 0,
        laps: Vec::new(),
        records: Vec::new(),
        serial_num: 0,
    }
}

fn three() -> App {
    App::new(vec![activity(30), activity(20), activity(10)])
}

fn selected_start(app: &App) -> Option<i64> {
    app.selected_session.as_ref().map(|s| s.start_time)
}

#[test]
fn default_session_shows_nothing() {
    let app = App::default();
    assert!(app.sessions.is_empty());
    assert!(app.selected_session.is_none());
    assert_eq!(app.selected_session_index, None);
}

#[test]
fn new_session_selects_the_first_activity() {
    let app = three();
    assert_eq!(app.sessions.len(), 3);
    assert_eq!(app.selected_session_index, Some(0));
    assert_eq!(selected_start(&app), Some(30));
}

#[test]
fn new_session_of_nothing_selects_nothing() {
    let app = App::new(Vec::new());
    assert_eq!(app.selected_session_index, Some(0));
    assert!(app.selected_session.is_none());
}

#[test]
fn change_selected_session_leaves_the_cursor() {
    let mut app = three();
    app.change_selected_session(2);
    assert_eq!(selected_start(&app), Some(10));
    assert_eq!(app.selected_session_index, Some(0));
    app.change_selected_session(3);
    assert_eq!(selected_start(&app), None);
    assert_eq!(app.sessions.len(), 3);
}

#[test]
fn select_moves_cursor_and_selection() {
    let mut app = three();
    app.select(Some(1));
    assert_eq!(app.selected_session_index, Some(1));
    assert_eq!(selected_start(&app), Some(20));
    app.select(None);
    assert_eq!(app.selected_session_index, None);
    assert_eq!(selected_start(&app), None);
    app.select(Some(7));
    assert_eq!(app.selected_session_index, Some(7));
    assert_eq!(selected_start(&app), None);
}

#[test]
fn moving_down_steps_and_wraps() {
    let mut app = three();
    move_down_event(&mut app);
    assert_eq!(app.selected_session_index, Some(1));
    assert_eq!(selected_start(&app), Some(20));
    move_down_event(&mut app);
    assert_eq!(app.selected_session_index, Some(2));
    assert_eq!(selected_start(&app), Some(10));
    move_down_event(&mut app);
    assert_eq!(app.selected_session_index, Some(0));
    assert_eq!(selected_start(&app), Some(30));
}

#[test]
fn moving_up_steps_and_wraps() {
    let mut app = three();
    move_up_event(&mut app);
    assert_eq!(app.selected_session_index, Some(2));
    assert_eq!(selected_start(&app), Some(10));
    move_up_event(&mut app);
    assert_eq!(app.selected_session_index, Some(1));
    assert_eq!(selected_start(&app), Some(20));
    move_up_event(&mut app);
    assert_eq!(app.selected_session_index, Some(0));
    assert_eq!(selected_start(&app), Some(30));
}

#[test]
fn moving_in_an_empty_list_selects_nothing() {
    let mut app = App::new(Vec::new());
    move_down_event(&mut app);
    assert_eq!(app.selected_session_index, None);
    assert!(app.selected_session.is_none());
    move_up_event(&mut app);
    assert_eq!(app.selected_session_index, None);
    assert!(app.selected_session.is_none());
}

#[test]
fn moving_from_nowhere_enters_the_list() {
    let mut app = three();
    app.select(None);
    move_down_event(&mut app);
    assert_eq!(app.selected_session_index, Some(0));
    app.select(None);
    move_up_event(&mut app);
    assert_eq!(app.selected_session_index, Some(2));
    assert_eq!(selected_start(&app), Some(10));
}

#[test]
fn moving_from_beyond_the_list_returns_into_it() {
    let mut app = three();
    app.select(Some(usize::MAX));
    move_down_event(&mut app);
    assert_eq!(app.selected_session_index, Some(0));
    app.select(Some(usize::MAX));
    move_up_event(&mut app);
    assert_eq!(app.selected_session_index, Some(2));
    app.select(Some(3));
    move_up_event(&mut app);
    assert_eq!(app.selected_session_index, Some(2));
}

#[test]
fn single_activity_stays_selected() {
    let mut app = App::new(vec![activity(1)]);
    move_down_event(&mut app);
    assert_eq!(app.selected_session_index, Some(0));
    move_up_event(&mut app);
    assert_eq!(app.selected_session_index, Some(0));
    assert_eq!(selected_start(&app), Some(1));
}

#[test]
fn keys_have_their_commands() {
    assert_eq!(App::command(Key::Char('q')), Command::Quit);
    assert_eq!(App::command(Key::Char('j')), Command::SelectNext);
    assert_eq!(App::command(Key::Down), Command::SelectNext);
    assert_eq!(App::command(Key::Char('k')), Command::SelectPrevious);
    assert_eq!(App::command(Key::Up), Command::SelectPrevious);
    assert_eq!(App::command(Key::Char('x')), Command::Nothing);
    assert_eq!(App::command(Key::Char('Q')), Command::Nothing);
    assert_eq!(App::command(Key::Other), Command::Nothing);
}

#[test]
fn keys_move_the_cursor() {
    let mut app = three();
    assert!(!app.handle_key(Key::Char('j')));
    assert_eq!(app.selected_session_index, Some(1));
    assert!(!app.handle_key(Key::Down));
    assert_eq!(app.selected_session_index, Some(2));
    assert!(!app.handle_key(Key::Char('k')));
    assert_eq!(app.selected_session_index, Some(1));
    assert!(!app.handle_key(Key::Up));
    assert_eq!(app.selected_session_index, Some(0));
    assert!(!app.handle_key(Key::Other));
    assert!(!app.handle_key(Key::Char('z')));
    assert_eq!(app.selected_session_index, Some(0));
    assert_eq!(selected_start(&app), Some(30));
}

#[test]
fn quit_key_ends_the_session_and_changes_nothing() {
    let mut app = three();
    app.select(Some(1));
    assert!(app.handle_key(Key::Char('q')));
    assert_eq!(app.selected_session_index, Some(1));
    assert_eq!(selected_start(&app), Some(20));
}
