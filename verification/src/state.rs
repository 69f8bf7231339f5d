//! The state of a game and the rules by which it changes.

use crate::actions::Action;
use crate::feedback::{evaluate, spec_evaluate, LetterStatus};
use crate::key::Key;
use crate::keyboard::{overlay_after_guess, overlay_of, Keyboard};
use crate::play::{lemma_advance_settles, lemma_record_keeps_wf};
use crate::text::texts;
use vstd::prelude::*;
use vstd::string::*;

verus! {

/// How many letters a word of the game has.
pub const WORD_LENGTH: usize = 5;

/// How many guesses a game allows.
pub const MAX_ATTEMPTS: u8 = 6;

/// Where a game stands.
#[derive(Debug, Clone, Copy, PartialEq, Eq, Structural)]
pub enum GameStatus {
    InProgress,
    Win,
    Lose,
}

/// A game as a mathematical value: what `AppState` holds, and the rules of the
/// game as functions from one such value to the next.
#[verifier::ext_equal]
pub struct Game {
    /// The guess that is being typed.
    pub input: Seq<char>,
    /// The word to find.
    pub solution: Seq<char>,
    /// The guesses handed in and accepted so far, the oldest first.
    pub guesses: Seq<Seq<char>>,
    /// For each guess, the status of each of its letters.
    pub feedback: Seq<Seq<LetterStatus>>,
    /// For each letter seen in a guess, the best status that it had.
    pub keyboard: Map<char, LetterStatus>,
    /// How many guesses were accepted.
    pub attempt: nat,
    pub status: GameStatus,
}

impl Game {
    /// A game that begins: nothing typed, nothing guessed.
    pub open spec fn start(solution: Seq<char>) -> Game {
        Game {
            input: Seq::empty(),
            solution,
            guesses: Seq::empty(),
            feedback: Seq::empty(),
            keyboard: Map::empty(),
            attempt: 0,
            status: GameStatus::InProgress,
        }
    }

    /// What holds of a game at every moment: the solution has five letters; the
    /// guesses, the rows of feedback and the attempts counted are equally many, and
    /// at most six; every guess has five letters; each row of feedback is the
    /// evaluation of its guess, and the keyboard shows what those guesses gave.
    pub open spec fn wf(self) -> bool {
        &&& self.solution.len() == WORD_LENGTH
        &&& self.guesses.len() == self.attempt
        &&& self.feedback.len() == self.attempt
        &&& self.attempt <= MAX_ATTEMPTS
        &&& forall|i: int| 0 <= i < self.guesses.len() ==> (#[trigger] self.guesses[i]).len() == WORD_LENGTH
        &&& forall|i: int|
            0 <= i < self.feedback.len() ==> #[trigger] self.feedback[i] == spec_evaluate(
                self.guesses[i],
                self.solution,
            )
        &&& self.keyboard == overlay_of(self.solution, self.guesses)
    }

    /// Typing the letter `c`: it is added to the input, unless the input is full.
    pub open spec fn edit(self, c: char) -> Game {
        if self.input.len() < WORD_LENGTH {
            Game { input: self.input.push(c), ..self }
        } else {
            self
        }
    }

    /// Taking back a letter: the last letter of the input goes, if there is one.
    pub open spec fn backspace(self) -> Game {
        if self.input.len() > 0 {
            Game { input: self.input.drop_last(), ..self }
        } else {
            self
        }
    }

    /// Whether the word typed counts as a guess when it is handed in: the game is
    /// still on and has an attempt left, the word has five letters, and the
    /// dictionary knows it.
    pub open spec fn accepts(self, word_is_valid: bool) -> bool {
        &&& self.status == GameStatus::InProgress
        &&& self.attempt < MAX_ATTEMPTS
        &&& self.input.len() == WORD_LENGTH
        &&& word_is_valid
    }

    /// The game with one more row of feedback, for its latest guess, and with the
    /// keyboard brought up to date. Without a guess the row is empty.
    pub open spec fn evaluated(self) -> Game {
        if self.guesses.len() > 0 {
            Game {
                feedback: self.feedback.push(spec_evaluate(self.guesses.last(), self.solution)),
                keyboard: overlay_after_guess(self.keyboard, self.guesses.last(), self.solution),
                ..self
            }
        } else {
            Game { feedback: self.feedback.push(Seq::empty()), ..self }
        }
    }

    /// The game after `word` was accepted as a guess.
    pub open spec fn record(self, word: Seq<char>) -> Game {
        Game {
            guesses: self.guesses.push(word),
            feedback: self.feedback.push(spec_evaluate(word, self.solution)),
            keyboard: overlay_after_guess(self.keyboard, word, self.solution),
            attempt: self.attempt + 1,
            ..self
        }
    }

    /// Handing in the word typed: the input is emptied in any case, and the word
    /// is recorded as a guess where it is accepted.
    pub open spec fn submit(self, word_is_valid: bool) -> Game {
        let emptied = Game { input: Seq::empty(), ..self };
        if self.accepts(word_is_valid) {
            emptied.record(self.input)
        } else {
            emptied
        }
    }

    /// The game after the key `key` was pressed and asked for `action`, where
    /// `word_is_valid` says whether the dictionary knows the word typed so far.
    /// A key that asks for nothing, and one that asks to quit, leave the game as
    /// it is.
    pub open spec fn apply(self, action: Option<Action>, key: Key, word_is_valid: bool) -> Game {
        match action {
            Some(Action::Edit) => match key {
                Key::Char(c) => self.edit(c),
                _ => self,
            },
            Some(Action::Backspace) => self.backspace(),
            Some(Action::Submit) => self.submit(word_is_valid),
            Some(Action::Quit) | None => self,
        }
    }

    /// Whether the latest guess is the solution.
    pub open spec fn solved(self) -> bool {
        self.guesses.len() > 0 && self.guesses.last() == self.solution
    }

    /// The end-of-round check: a game that is on is won where the latest guess is
    /// the solution, and otherwise lost where no attempt is left. A game that is
    /// over stays as it is.
    pub open spec fn advance(self) -> Game {
        if self.status != GameStatus::InProgress {
            self
        } else if self.solved() {
            Game { status: GameStatus::Win, ..self }
        } else if self.attempt >= MAX_ATTEMPTS {
            Game { status: GameStatus::Lose, ..self }
        } else {
            self
        }
    }
}

/// The views of the rows of a feedback table.
pub open spec fn rows(table: Seq<Vec<LetterStatus>>) -> Seq<Seq<LetterStatus>> {
    Seq::new(table.len(), |i: int| table[i]@)
}

/// The state of one game.
#[derive(Debug)]
pub struct AppState {
    pub input: String,
    pub solution: String,
    pub guesses: Vec<String>,
    /// One row for each guess: the status of each of its letters.
    pub feedback: Vec<Vec<LetterStatus>>,
    pub keyboard: Keyboard,
    pub attempt: u8,
    pub game_status: GameStatus,
}

impl View for AppState {
    type V = Game;

    open spec fn view(&self) -> Game {
        Game {
            input: self.input@,
            solution: self.solution@,
            guesses: texts(self.guesses@),
            feedback: rows(self.feedback@),
            keyboard: self.keyboard@,
            attempt: self.attempt as nat,
            status: self.game_status,
        }
    }
}

impl AppState {
    /// The state of a game that begins, with `solution` as the word to find.
    pub fn new(solution: String) -> (state: AppState)
        requires
            solution@.len() == WORD_LENGTH,
        ensures
            state@ == Game::start(solution@),
            state@.wf(),
    {
        AppState {
            input: String::new(),
            solution,
            guesses: Vec::new(),
            feedback: Vec::new(),
            keyboard: Keyboard::new(),
            attempt: 0,
            game_status: GameStatus::InProgress,
        }
    }

    /// Marks the game as lost.
    pub fn game_lost(&mut self)
        ensures
            final(self)@ == (Game { status: GameStatus::Lose, ..old(self)@ }),
    {
        self.game_status = GameStatus::Lose;
    }

    /// Marks the game as won.
    pub fn game_won(&mut self)
        ensures
            final(self)@ == (Game { status: GameStatus::Win, ..old(self)@ }),
    {
        self.game_status = GameStatus::Win;
    }

    /// Counts one more attempt.
    pub fn increment_attempt(&mut self)
        requires
            old(self).attempt < u8::MAX,
        ensures
            final(self)@ == (Game { attempt: old(self)@.attempt + 1, ..old(self)@ }),
    {
        self.attempt += 1;
    }

    /// Evaluates the latest guess: adds its row of feedback and marks its letters
    /// on the keyboard.
    pub fn check_word_status(&mut self)
        ensures
            final(self)@ == old(self)@.evaluated(),
    {
        let n = self.guesses.len();
        if n > 0 {
            let statuses = evaluate(self.guesses[n - 1].as_str(), self.solution.as_str());
            self.keyboard.observe_guess(self.guesses[n - 1].as_str(), self.solution.as_str());
            self.feedback.push(statuses);
        } else {
            self.feedback.push(Vec::new());
        }
    }

    /// Types the letter `c`. The input never grows beyond five letters: a letter
    /// typed when it is full is dropped.
    pub fn edit_letter(&mut self, c: char)
        ensures
            final(self)@ == old(self)@.edit(c),
            final(self)@.input.len() <= WORD_LENGTH || final(self)@ == old(self)@,
            old(self)@.wf() ==> final(self)@.wf(),
    {
        if self.input.as_str().unicode_len() < WORD_LENGTH {
            self.input.push(c);
        }
    }

    /// Takes back the last letter typed. With nothing typed, nothing changes.
    pub fn backspace(&mut self)
        ensures
            final(self)@ == old(self)@.backspace(),
            old(self)@.input.len() == 0 ==> final(self)@ == old(self)@,
            old(self)@.wf() ==> final(self)@.wf(),
    {
        self.input.pop();
    }

    /// Hands in the word typed. `word_is_valid` says whether the dictionary knows
    /// that word. The input is emptied; the word is recorded as a guess, evaluated
    /// and counted exactly if `old(self)@.accepts(word_is_valid)`. A word of
    /// another length than five, or one that the dictionary does not know, changes
    /// nothing but the input.
    pub fn submit(&mut self, word_is_valid: bool)
        ensures
            final(self)@ == old(self)@.submit(word_is_valid),
            final(self)@.input.len() == 0,
            old(self)@.input.len() != WORD_LENGTH || !word_is_valid ==> final(self)@ == (Game {
                input: Seq::empty(),
                ..old(self)@
            }),
            old(self)@.status != GameStatus::InProgress ==> final(self)@ == (Game {
                input: Seq::empty(),
                ..old(self)@
            }),
            old(self)@.wf() ==> final(self)@.wf(),
    {
        proof {
            if old(self)@.wf() && old(self)@.accepts(word_is_valid) {
                lemma_record_keeps_wf(Game { input: Seq::empty(), ..old(self)@ }, old(self)@.input);
            }
        }
        let mut word = String::new();
        std::mem::swap(&mut self.input, &mut word);
        if self.game_status == GameStatus::InProgress && self.attempt < MAX_ATTEMPTS
            && word.as_str().unicode_len() == WORD_LENGTH && word_is_valid {
            self.guesses.push(word);
            assert(texts(self.guesses@) =~= texts(old(self).guesses@).push(word@));
            self.check_word_status();
            self.increment_attempt();
        }
    }

    /// The end-of-round check: decides whether the game is won or lost.
    pub fn advance(&mut self)
        ensures
            final(self)@ == old(self)@.advance(),
            old(self)@.status != GameStatus::InProgress ==> final(self)@ == old(self)@,
            old(self)@.wf() ==> final(self)@.wf(),
    {
        proof {
            lemma_advance_settles(old(self)@);
        }
        if self.game_status == GameStatus::InProgress {
            let n = self.guesses.len();
            if n > 0 && self.guesses[n - 1] == self.solution {
                self.game_won();
            } else if self.attempt >= MAX_ATTEMPTS {
                self.game_lost();
            }
        }
    }
}

} // verus!
