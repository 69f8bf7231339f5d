use rustle::feedback::{evaluate, word_contains, LetterStatus};
use rustle::feedback::LetterStatus::{Absent, Correct, Present};

#[test]
fn evaluate_route_against_rebus() {
    assert_eq!(
        evaluate("route", "rebus"),
        vec![Correct, Absent, Present, Absent, Present]
    );
}

#[test]
fn evaluate_marks_a_repeated_letter_each_time() {
    // The solution holds one `s` and one `e`; the guess holds two of each.
    assert_eq!(evaluate("sees", "rebus"), vec![Present, Correct, Present, Present]);
    assert_eq!(evaluate("eerie", "rebus"), vec![Present, Correct, Present, Absent, Present]);
}

#[test]
fn evaluate_the_solution_is_all_correct() {
    assert_eq!(evaluate("rebus", "rebus"), vec![Correct; 5]);
}

#[test]
fn evaluate_a_word_without_common_letters_is_all_absent() {
    assert_eq!(evaluate("tacky", "rebus"), vec![Absent; 5]);
}

#[test]
fn evaluate_a_rearranged_solution_is_all_present() {
    assert_eq!(evaluate("ebusr", "rebus"), vec![Present; 5]);
}

#[test]
fn evaluate_gives_one_status_for_each_letter() {
    for guess in ["", "a", "route", "rebus", "zzzzz", "longerword"] {
        assert_eq!(evaluate(guess, "rebus").len(), guess.chars().count());
    }
}

#[test]
fn evaluate_a_guess_longer_than_the_solution() {
    assert_eq!(
        evaluate("rebuses", "rebus"),
        vec![Correct, Correct, Correct, Correct, Correct, Present, Present]
    );
}

#[test]
fn evaluate_counts_characters_not_bytes() {
    assert_eq!(evaluate("héllo", "hello"), vec![Correct, Absent, Correct, Correct, Correct]);
}

#[test]
fn evaluate_gives_the_same_result_each_time() {
    let first = evaluate("route", "rebus");
    let second = evaluate("route", "rebus");
    assert_eq!(first, second);
}

#[test]
fn stronger_than_orders_the_statuses() {
    let all = [Absent, Present, Correct];
    for (i, a) in all.iter().enumerate() {
        for (j, b) in all.iter().enumerate() {
            assert_eq!(a.stronger_than(*b), i > j, "{:?} over {:?}", a, b);
        }
    }
}

#[test]
fn word_contains_finds_letters() {
    assert!(word_contains("rebus", 'r'));
    assert!(word_contains("rebus", 's'));
    assert!(!word_contains("rebus", 'x'));
    assert!(!word_contains("", 'x'));
}

#[test]
fn letter_status_is_a_plain_value() {
    let status: LetterStatus = Present;
    let copy = status;
    assert_eq!(status, copy);
    assert_ne!(status, Correct);
}
