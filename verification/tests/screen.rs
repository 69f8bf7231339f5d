use rustle::feedback::LetterStatus::{Absent, Correct, Present};
use rustle::state::{AppState, GameStatus};
use rustle::text::{decimal_string, join_strings};

fn game_with(solution: &str, words: &[&str]) -> AppState {
    let mut state = AppState::new(String::from(solution));
    for word in words {
        for c in word.chars() {
            state.edit_letter(c);
        }
        state.submit(true);
        state.advance();
    }
    state
}

#[test]
fn the_board_of_a_new_game_is_blank() {
    let state = game_with("rebus", &[]);
    let board = state.board();
    assert_eq!(board.len(), 6);
    for row in &board {
        assert_eq!(row, &vec![(' ', None); 5]);
    }
}

#[test]
fn the_board_shows_each_guess_with_its_feedback() {
    let state = game_with("rebus", &["route", "merry"]);
    let board = state.board();
    assert_eq!(board.len(), 6);
    assert_eq!(
        board[0],
        vec![
            ('r', Some(Correct)),
            ('o', Some(Absent)),
            ('u', Some(Present)),
            ('t', Some(Absent)),
            ('e', Some(Present)),
        ]
    );
    assert_eq!(
        board[1],
        vec![
            ('m', Some(Absent)),
            ('e', Some(Correct)),
            ('r', Some(Present)),
            ('r', Some(Present)),
            ('y', Some(Absent)),
        ]
    );
    for row in 2..6 {
        assert_eq!(board[row], vec![(' ', None); 5]);
        assert_eq!(state.board_row(row), board[row]);
    }
    assert_eq!(state.board_row(0), board[0]);
    assert_eq!(state.board_row(6), vec![(' ', None); 5]);
    assert_eq!(state.board_row(usize::MAX), vec![(' ', None); 5]);
}

#[test]
fn a_guess_without_feedback_shows_its_letters_unmarked() {
    let state = AppState {
        guesses: vec![String::from("route"), String::from("abc")],
        feedback: vec![vec![Correct, Absent]],
        ..AppState::new(String::from("rebus"))
    };
    assert_eq!(
        state.board_row(0),
        vec![('r', Some(Correct)), ('o', Some(Absent)), ('u', None), ('t', None), ('e', None)]
    );
    assert_eq!(
        state.board_row(1),
        vec![('a', None), ('b', None), ('c', None), (' ', None), (' ', None)]
    );
}

#[test]
fn the_rows_of_the_keyboard() {
    let state = game_with("rebus", &[]);
    let letters = |row: usize| -> String {
        state.key_row(row).iter().map(|key| key.0).collect()
    };
    assert_eq!(letters(0), "qwertyuiop");
    assert_eq!(letters(1), "asdfghjkl");
    assert_eq!(letters(2), "zxcvbnm");
    assert_eq!(letters(3), "");
    for row in 0..3 {
        assert!(state.key_row(row).iter().all(|key| key.1.is_none()));
    }
}

#[test]
fn the_keyboard_shows_the_marks() {
    let state = game_with("rebus", &["route"]);
    assert_eq!(
        state.key_row(0),
        vec![
            ('q', None),
            ('w', None),
            ('e', Some(Present)),
            ('r', Some(Correct)),
            ('t', Some(Absent)),
            ('y', None),
            ('u', Some(Present)),
            ('i', None),
            ('o', Some(Absent)),
            ('p', None),
        ]
    );
    assert!(state.key_row(1).iter().all(|key| key.1.is_none()));
    assert!(state.key_row(2).iter().all(|key| key.1.is_none()));
}

#[test]
fn no_popup_while_the_game_is_on() {
    assert_eq!(game_with("rebus", &[]).popup(), None);
    assert_eq!(game_with("rebus", &["route"]).popup(), None);
}

#[test]
fn the_popup_after_a_win_counts_the_attempts() {
    let state = game_with("rebus", &["route", "rebus"]);
    assert_eq!(state.game_status, GameStatus::Win);
    assert_eq!(
        state.popup(),
        Some(String::from("You have won! It took 2 attempts.\nPress ESC or CTRL+C to exit"))
    );
}

#[test]
fn the_popup_after_a_loss_shows_the_solution() {
    let state = game_with("rebus", &["route", "tacky", "merry", "arise", "ruble", "rebut"]);
    assert_eq!(state.game_status, GameStatus::Lose);
    assert_eq!(
        state.popup(),
        Some(String::from(
            "You lost. The correct word was \"rebus\".\nPress ESC or CTRL+C to exit"
        ))
    );
}

#[test]
fn decimal_string_writes_numbers() {
    assert_eq!(decimal_string(0), "0");
    assert_eq!(decimal_string(7), "7");
    assert_eq!(decimal_string(9), "9");
    assert_eq!(decimal_string(10), "10");
    assert_eq!(decimal_string(42), "42");
    assert_eq!(decimal_string(99), "99");
    assert_eq!(decimal_string(100), "100");
    assert_eq!(decimal_string(109), "109");
    assert_eq!(decimal_string(255), "255");
    for n in 0..=u8::MAX {
        assert_eq!(decimal_string(n), format!("{}", n));
    }
}

#[test]
fn join_strings_puts_the_separator_between() {
    let parts = |words: &[&str]| -> Vec<String> { words.iter().map(|w| String::from(*w)).collect() };
    assert_eq!(join_strings(&parts(&[]), ", "), "");
    assert_eq!(join_strings(&parts(&["a"]), ", "), "a");
    assert_eq!(join_strings(&parts(&["a", "b", "c"]), ", "), "a, b, c");
    assert_eq!(join_strings(&parts(&["", "b", ""]), "; "), "; b; ");
    assert_eq!(join_strings(&parts(&["", ""]), "-"), "-");
    assert_eq!(join_strings(&parts(&["a", "b"]), ""), "ab");
}
