use rustle::actions::Action;
use rustle::app::{App, AppReturn};
use rustle::feedback::LetterStatus::{Absent, Correct, Present};
use rustle::key::Key;
use rustle::state::GameStatus;

fn app(solution: &str) -> App {
    let mut app = App::new(String::from("wordy"));
    app.initialized(String::from(solution));
    app
}

fn press_all(app: &mut App, word: &str) {
    for c in word.chars() {
        assert_eq!(app.do_action(Key::Char(c), false), AppReturn::Continue);
    }
}

fn guess(app: &mut App, word: &str) {
    press_all(app, word);
    assert_eq!(app.do_action(Key::Enter, true), AppReturn::Continue);
    assert_eq!(app.update_on_tick(), AppReturn::Continue);
}

#[test]
fn a_new_app_offers_only_quit() {
    let app = App::new(String::from("rebus"));
    assert_eq!(app.actions().actions(), [Action::Quit].as_slice());
    assert!(!app.is_loading());
    assert_eq!(app.state().solution, "rebus");
    assert_eq!(app.state().input, "");
    assert_eq!(app.state().attempt, 0);
    assert_eq!(app.state().game_status, GameStatus::InProgress);
}

#[test]
fn initialized_offers_every_action_and_begins_a_new_game() {
    let mut app = App::new(String::from("wordy"));
    press_all(&mut app, "ab");
    app.dispatch(true);
    app.initialized(String::from("rebus"));
    assert_eq!(
        app.actions().actions(),
        [Action::Quit, Action::Backspace, Action::Submit, Action::Edit].as_slice()
    );
    assert_eq!(app.state().solution, "rebus");
    assert_eq!(app.state().input, "");
    assert!(app.state().guesses.is_empty());
    assert!(app.is_loading());
}

#[test]
fn quit_returns_exit_in_every_state() {
    let mut app = app("rebus");
    assert_eq!(app.do_action(Key::Esc, false), AppReturn::Exit);
    assert_eq!(app.do_action(Key::Ctrl('c'), true), AppReturn::Exit);
    press_all(&mut app, "rou");
    assert_eq!(app.do_action(Key::Esc, true), AppReturn::Exit);
    assert_eq!(app.state().input, "rou");
    guess(&mut app, "te");
    guess(&mut app, "rebus");
    assert_eq!(app.state().game_status, GameStatus::Win);
    assert_eq!(app.do_action(Key::Ctrl('c'), false), AppReturn::Exit);
    assert_eq!(app.state().game_status, GameStatus::Win);
    assert_eq!(app.state().attempt, 2);

    let mut fresh = App::new(String::from("rebus"));
    assert_eq!(fresh.do_action(Key::Esc, false), AppReturn::Exit);
}

#[test]
fn letters_are_typed_and_taken_back() {
    let mut app = app("rebus");
    press_all(&mut app, "rot");
    assert_eq!(app.state().input, "rot");
    assert_eq!(app.do_action(Key::Backspace, false), AppReturn::Continue);
    assert_eq!(app.state().input, "ro");
    assert_eq!(app.do_action(Key::Delete, false), AppReturn::Continue);
    assert_eq!(app.state().input, "r");
    press_all(&mut app, "oute");
    assert_eq!(app.state().input, "route");
    press_all(&mut app, "s");
    assert_eq!(app.state().input, "route");
}

#[test]
fn backspace_on_empty_input_is_ignored() {
    let mut app = app("rebus");
    assert_eq!(app.do_action(Key::Backspace, false), AppReturn::Continue);
    assert_eq!(app.state().input, "");
    assert_eq!(app.state().attempt, 0);
}

#[test]
fn keys_that_ask_for_nothing_change_nothing() {
    let mut app = app("rebus");
    press_all(&mut app, "ro");
    for key in [Key::Char('A'), Key::Char('3'), Key::Char(' '), Key::Ctrl('a'), Key::Ctrl('z')] {
        assert_eq!(app.do_action(key, true), AppReturn::Continue);
        assert_eq!(app.state().input, "ro");
        assert_eq!(app.state().attempt, 0);
    }
}

#[test]
fn enter_hands_in_the_word() {
    let mut app = app("rebus");
    press_all(&mut app, "route");
    assert_eq!(app.do_action(Key::Enter, true), AppReturn::Continue);
    assert_eq!(app.state().input, "");
    assert_eq!(app.state().guesses, vec![String::from("route")]);
    assert_eq!(app.state().feedback, vec![vec![Correct, Absent, Present, Absent, Present]]);
    assert_eq!(app.state().attempt, 1);
    assert_eq!(app.state().keyboard.get('r'), Some(Correct));
}

#[test]
fn enter_drops_a_word_that_is_not_accepted() {
    let mut app = app("rebus");
    press_all(&mut app, "rou");
    assert_eq!(app.do_action(Key::Enter, true), AppReturn::Continue);
    assert_eq!(app.state().input, "");
    assert!(app.state().guesses.is_empty());
    press_all(&mut app, "route");
    assert_eq!(app.do_action(Key::Enter, false), AppReturn::Continue);
    assert_eq!(app.state().input, "");
    assert!(app.state().guesses.is_empty());
    assert!(app.state().feedback.is_empty());
    assert_eq!(app.state().attempt, 0);
    assert_eq!(app.state().game_status, GameStatus::InProgress);
}

#[test]
fn the_validity_matters_only_when_a_word_is_handed_in() {
    let mut with = app("rebus");
    let mut without = app("rebus");
    for key in [Key::Char('r'), Key::Char('o'), Key::Backspace, Key::Char('e')] {
        with.do_action(key, true);
        without.do_action(key, false);
    }
    assert_eq!(with.state().input, "re");
    assert_eq!(without.state().input, "re");
}

#[test]
fn a_game_is_won_through_the_keys() {
    let mut app = app("rebus");
    guess(&mut app, "route");
    assert_eq!(app.state().game_status, GameStatus::InProgress);
    guess(&mut app, "rebus");
    assert_eq!(app.state().game_status, GameStatus::Win);
    assert_eq!(app.update_on_tick(), AppReturn::Continue);
    assert_eq!(app.state().game_status, GameStatus::Win);
}

#[test]
fn a_game_is_lost_through_the_keys() {
    let mut app = app("rebus");
    for word in ["route", "tacky", "merry", "arise", "ruble", "rebut"] {
        assert_eq!(app.state().game_status, GameStatus::InProgress);
        guess(&mut app, word);
    }
    assert_eq!(app.state().attempt, 6);
    assert_eq!(app.state().game_status, GameStatus::Lose);
    guess(&mut app, "rebus");
    assert_eq!(app.state().attempt, 6);
    assert_eq!(app.state().game_status, GameStatus::Lose);
}

#[test]
fn update_on_tick_leaves_an_open_game_open() {
    let mut app = app("rebus");
    assert_eq!(app.update_on_tick(), AppReturn::Continue);
    assert_eq!(app.state().game_status, GameStatus::InProgress);
}

#[test]
fn only_quit_works_before_the_game_is_set_up() {
    let mut app = App::new(String::from("rebus"));
    press_all(&mut app, "route");
    assert_eq!(app.state().input, "");
    assert_eq!(app.do_action(Key::Enter, true), AppReturn::Continue);
    assert_eq!(app.do_action(Key::Backspace, true), AppReturn::Continue);
    assert_eq!(app.state().input, "");
    assert_eq!(app.state().attempt, 0);
    assert!(app.state().guesses.is_empty());
    assert!(!app.needs_dictionary(Key::Enter));
    assert_eq!(app.do_action(Key::Esc, false), AppReturn::Exit);
    assert_eq!(app.do_action(Key::Ctrl('c'), false), AppReturn::Exit);
}

#[test]
fn the_keys_work_once_the_game_is_set_up() {
    let mut app = App::new(String::from("wordy"));
    press_all(&mut app, "route");
    assert_eq!(app.state().input, "");
    app.initialized(String::from("rebus"));
    press_all(&mut app, "route");
    assert_eq!(app.state().input, "route");
    assert!(app.needs_dictionary(Key::Enter));
    assert_eq!(app.do_action(Key::Enter, true), AppReturn::Continue);
    assert_eq!(app.state().attempt, 1);
}

#[test]
fn dispatch_sets_the_loading_flag_by_the_delivery() {
    let mut app = app("rebus");
    assert!(!app.is_loading());
    app.dispatch(true);
    assert!(app.is_loading());
    app.dispatch(false);
    assert!(!app.is_loading());
    assert_eq!(app.state().solution, "rebus");
    assert_eq!(app.actions().actions().len(), 4);
}

#[test]
fn the_dictionary_is_needed_only_for_a_full_word_handed_in() {
    let mut app = app("rebus");
    assert!(!app.needs_dictionary(Key::Enter));
    press_all(&mut app, "rout");
    assert!(!app.needs_dictionary(Key::Enter));
    assert!(!app.needs_dictionary(Key::Char('e')));
    press_all(&mut app, "e");
    assert!(app.needs_dictionary(Key::Enter));
    assert!(!app.needs_dictionary(Key::Char('s')));
    assert!(!app.needs_dictionary(Key::Backspace));
    assert!(!app.needs_dictionary(Key::Esc));
    assert!(!app.needs_dictionary(Key::Char('!')));
    assert_eq!(app.state().input, "route");
}
