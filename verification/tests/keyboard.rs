use rustle::feedback::LetterStatus::{Absent, Correct, Present};
use rustle::keyboard::Keyboard;

#[test]
fn a_new_keyboard_shows_nothing() {
    let keyboard = Keyboard::new();
    for c in 'a'..='z' {
        assert_eq!(keyboard.get(c), None);
    }
    assert_eq!(keyboard.get('A'), None);
    assert_eq!(keyboard.get(' '), None);
}

#[test]
fn a_letter_enters_with_its_first_status() {
    let mut keyboard = Keyboard::new();
    keyboard.observe('q', Absent);
    assert_eq!(keyboard.get('q'), Some(Absent));
    assert_eq!(keyboard.get('w'), None);
    keyboard.observe('a', Present);
    keyboard.observe('z', Correct);
    assert_eq!(keyboard.get('a'), Some(Present));
    assert_eq!(keyboard.get('z'), Some(Correct));
}

#[test]
fn a_mark_only_gets_stronger() {
    let mut keyboard = Keyboard::new();
    keyboard.observe('e', Absent);
    keyboard.observe('e', Present);
    assert_eq!(keyboard.get('e'), Some(Present));
    keyboard.observe('e', Absent);
    assert_eq!(keyboard.get('e'), Some(Present));
    keyboard.observe('e', Correct);
    assert_eq!(keyboard.get('e'), Some(Correct));
    keyboard.observe('e', Present);
    assert_eq!(keyboard.get('e'), Some(Correct));
    keyboard.observe('e', Absent);
    assert_eq!(keyboard.get('e'), Some(Correct));
}

#[test]
fn what_is_no_letter_is_not_marked() {
    let mut keyboard = Keyboard::new();
    keyboard.observe('E', Correct);
    keyboard.observe('1', Present);
    keyboard.observe('{', Present);
    keyboard.observe('`', Present);
    keyboard.observe('é', Absent);
    for c in 'a'..='z' {
        assert_eq!(keyboard.get(c), None);
    }
    assert_eq!(keyboard.get('E'), None);
    assert_eq!(keyboard.get('é'), None);
}

#[test]
fn observe_guess_marks_each_letter() {
    let mut keyboard = Keyboard::new();
    keyboard.observe_guess("route", "rebus");
    assert_eq!(keyboard.get('r'), Some(Correct));
    assert_eq!(keyboard.get('o'), Some(Absent));
    assert_eq!(keyboard.get('u'), Some(Present));
    assert_eq!(keyboard.get('t'), Some(Absent));
    assert_eq!(keyboard.get('e'), Some(Present));
    assert_eq!(keyboard.get('b'), None);
    assert_eq!(keyboard.get('s'), None);
}

#[test]
fn observe_guess_keeps_the_best_of_a_repeated_letter() {
    let mut keyboard = Keyboard::new();
    // `e` is Present at the first place, Correct at the second, Present at the third.
    keyboard.observe_guess("eerie", "rebus");
    assert_eq!(keyboard.get('e'), Some(Correct));
    assert_eq!(keyboard.get('r'), Some(Present));
    assert_eq!(keyboard.get('i'), Some(Absent));
}

#[test]
fn a_correct_letter_stays_correct_in_later_guesses() {
    let mut keyboard = Keyboard::new();
    keyboard.observe_guess("route", "rebus");
    assert_eq!(keyboard.get('r'), Some(Correct));
    // In `merry` the letter `r` is only Present.
    keyboard.observe_guess("merry", "rebus");
    assert_eq!(keyboard.get('r'), Some(Correct));
    assert_eq!(keyboard.get('e'), Some(Correct));
    keyboard.observe_guess("tacky", "rebus");
    assert_eq!(keyboard.get('r'), Some(Correct));
    assert_eq!(keyboard.get('e'), Some(Correct));
    assert_eq!(keyboard.get('t'), Some(Absent));
}
