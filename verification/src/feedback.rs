//! The feedback for a guess: one status for each of its letters.

use vstd::prelude::*;
use vstd::string::*;

verus! {

/// What one letter of a guess tells the player about the solution.
#[derive(Debug, Clone, Copy, PartialEq, Eq, Hash, Structural)]
pub enum LetterStatus {
    /// The letter does not occur in the solution.
    Absent,
    /// The letter occurs in the solution, at another position.
    Present,
    /// The letter stands at this position in the solution.
    Correct,
}

impl LetterStatus {
    /// How much a status tells: `Correct` over `Present` over `Absent`.
    pub open spec fn strength(self) -> nat {
        match self {
            LetterStatus::Absent => 0,
            LetterStatus::Present => 1,
            LetterStatus::Correct => 2,
        }
    }

    /// Whether `self` tells strictly more than `other`.
    pub fn stronger_than(self, other: LetterStatus) -> (r: bool)
        ensures
            r == (self.strength() > other.strength()),
    {
        match (self, other) {
            (LetterStatus::Correct, LetterStatus::Correct) => false,
            (LetterStatus::Correct, _) => true,
            (LetterStatus::Present, LetterStatus::Absent) => true,
            _ => false,
        }
    }
}

/// The status of position `i` of `guess` against `solution`: `Correct` where the
/// two words agree at `i`; otherwise `Present` where the letter occurs anywhere in
/// `solution`, and `Absent` where it does not. Letters of the solution are not
/// used up: a letter that the guess repeats is `Present` each time.
pub open spec fn letter_status(guess: Seq<char>, solution: Seq<char>, i: int) -> LetterStatus {
    if i < solution.len() && guess[i] == solution[i] {
        LetterStatus::Correct
    } else if solution.contains(guess[i]) {
        LetterStatus::Present
    } else {
        LetterStatus::Absent
    }
}

/// The feedback for a whole guess: one status per letter, in order.
pub open spec fn spec_evaluate(guess: Seq<char>, solution: Seq<char>) -> Seq<LetterStatus> {
    Seq::new(guess.len(), |i: int| letter_status(guess, solution, i))
}

/// Whether `word` holds the character `c`.
pub fn word_contains(word: &str, c: char) -> (r: bool)
    ensures
        r == word@.contains(c),
{
    let n = word.unicode_len();
    let mut i: usize = 0;
    while i < n
        invariant
            n == word@.len(),
            i <= n,
            forall|j: int| 0 <= j < i ==> word@[j] != c,
        decreases n - i,
    {
        if word.get_char(i) == c {
            return true;
        }
        i += 1;
    }
    false
}

/// Evaluates `guess` against `solution`, letter by letter.
pub fn evaluate(guess: &str, solution: &str) -> (statuses: Vec<LetterStatus>)
    ensures
        statuses@ == spec_evaluate(guess@, solution@),
        statuses@.len() == guess@.len(),
{
    let n = guess.unicode_len();
    let m = solution.unicode_len();
    let mut statuses: Vec<LetterStatus> = Vec::new();
    let mut i: usize = 0;
    while i < n
        invariant
            n == guess@.len(),
            m == solution@.len(),
            i <= n,
            statuses@.len() == i,
            forall|j: int| 0 <= j < i ==> statuses@[j] == letter_status(guess@, solution@, j),
        decreases n - i,
    {
        let c = guess.get_char(i);
        let status = if i < m && solution.get_char(i) == c {
            LetterStatus::Correct
        } else if word_contains(solution, c) {
            LetterStatus::Present
        } else {
            LetterStatus::Absent
        };
        statuses.push(status);
        i += 1;
    }
    statuses
}

} // verus!
