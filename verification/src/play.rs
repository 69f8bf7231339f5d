//! What holds of whole games: of the moves that are made and of where they lead.

use crate::actions::Action;
use crate::key::Key;
use crate::keyboard::{lemma_fold_no_weaker, no_weaker};
use crate::state::{Game, GameStatus, MAX_ATTEMPTS, WORD_LENGTH};
use vstd::prelude::*;

verus! {

/// What moves a game forward: a word that the dictionary knows is typed and
/// handed in, or the end-of-round check runs.
pub enum Move {
    Guess(Seq<char>),
    Tick,
}

impl Game {
    /// The game after `word`, which the dictionary knows, was typed and handed in.
    pub open spec fn guess(self, word: Seq<char>) -> Game {
        (Game { input: word, ..self }).submit(true)
    }

    /// The game after one move.
    pub open spec fn step(self, m: Move) -> Game {
        match m {
            Move::Guess(word) => self.guess(word),
            Move::Tick => self.advance(),
        }
    }

    /// The game after `moves`, one after the other.
    pub open spec fn run(self, moves: Seq<Move>) -> Game
        decreases moves.len(),
    {
        if moves.len() == 0 {
            self
        } else {
            self.run(moves.drop_last()).step(moves.last())
        }
    }
}

/// How many of `moves` are guesses.
pub open spec fn guesses_among(moves: Seq<Move>) -> nat
    decreases moves.len(),
{
    if moves.len() == 0 {
        0
    } else if moves.last() is Guess {
        guesses_among(moves.drop_last()) + 1
    } else {
        guesses_among(moves.drop_last())
    }
}

/// Whether every guess among `moves` has five letters and misses `solution`.
pub open spec fn all_miss(moves: Seq<Move>, solution: Seq<char>) -> bool {
    forall|i: int|
        0 <= i < moves.len() ==> ((#[trigger] moves[i]) matches Move::Guess(word) ==> word.len()
            == WORD_LENGTH && word != solution)
}

/// Recording a guess of five letters keeps a game with an attempt left as it
/// should be.
pub proof fn lemma_record_keeps_wf(game: Game, word: Seq<char>)
    requires
        game.wf(),
        game.attempt < MAX_ATTEMPTS,
        word.len() == WORD_LENGTH,
    ensures
        game.record(word).wf(),
{
    assert(game.record(word).guesses.drop_last() =~= game.guesses);
}

/// Whatever key is pressed, whatever it asks for and whatever the dictionary
/// says, a game that is as it should be stays so.
pub proof fn lemma_apply_keeps_wf(
    game: Game,
    action: Option<Action>,
    key: Key,
    word_is_valid: bool,
)
    requires
        game.wf(),
    ensures
        game.apply(action, key, word_is_valid).wf(),
{
    if action == Some(Action::Submit) && game.accepts(word_is_valid) {
        lemma_record_keeps_wf(Game { input: Seq::empty(), ..game }, game.input);
    }
}

/// The end-of-round check keeps a game as it should be, and running it twice
/// does no more than running it once.
pub proof fn lemma_advance_settles(game: Game)
    ensures
        game.wf() ==> game.advance().wf(),
        game.advance().advance() == game.advance(),
        game.status != GameStatus::InProgress ==> game.advance() == game,
{
}

/// Once a game is over, no key changes anything but the input: the guesses, the
/// feedback, the keyboard, the attempts and the status stay.
pub proof fn lemma_over_is_over(
    game: Game,
    action: Option<Action>,
    key: Key,
    word_is_valid: bool,
)
    requires
        game.status != GameStatus::InProgress,
    ensures
        game.apply(action, key, word_is_valid) == (Game {
            input: game.apply(action, key, word_is_valid).input,
            ..game
        }),
{
}

/// No key weakens a mark on the keyboard or takes one off, and neither does the
/// end-of-round check.
pub proof fn lemma_marks_stay(game: Game, action: Option<Action>, key: Key, word_is_valid: bool)
    ensures
        no_weaker(game.keyboard, game.apply(action, key, word_is_valid).keyboard),
        game.advance().keyboard == game.keyboard,
{
    lemma_fold_no_weaker(game.keyboard, game.input, game.solution, game.input.len());
}

/// Guessing the solution wins: where a game is on and has an attempt left, the
/// solution handed in as a guess makes the next end-of-round check set the
/// status to `Win`, and every later check leaves it there.
pub proof fn lemma_solution_wins(game: Game)
    requires
        game.status == GameStatus::InProgress,
        game.attempt < MAX_ATTEMPTS,
        game.solution.len() == WORD_LENGTH,
    ensures
        game.guess(game.solution).advance().status == GameStatus::Win,
        game.guess(game.solution).advance().advance() == game.guess(game.solution).advance(),
{
}

/// The sixth miss loses: where a game is on with five guesses made, a word of
/// five letters that is not the solution, handed in as a guess, makes the next
/// end-of-round check set the status to `Lose`.
pub proof fn lemma_sixth_miss_loses(game: Game, word: Seq<char>)
    requires
        game.status == GameStatus::InProgress,
        game.attempt == MAX_ATTEMPTS - 1,
        word.len() == WORD_LENGTH,
        word != game.solution,
    ensures
        game.guess(word).advance().status == GameStatus::Lose,
{
}

/// How a game stands after moves whose guesses all miss: it is as it should be;
/// it has counted the guesses, up to six; below six it is on, and from six on it
/// is on or lost, with a miss as its latest guess.
pub proof fn lemma_misses_counted(solution: Seq<char>, moves: Seq<Move>)
    requires
        solution.len() == WORD_LENGTH,
        all_miss(moves, solution),
    ensures
        Game::start(solution).run(moves).wf(),
        Game::start(solution).run(moves).solution == solution,
        Game::start(solution).run(moves).attempt == if guesses_among(moves) < MAX_ATTEMPTS {
            guesses_among(moves)
        } else {
            MAX_ATTEMPTS as nat
        },
        !Game::start(solution).run(moves).solved(),
        Game::start(solution).run(moves).status != GameStatus::Win,
        guesses_among(moves) < MAX_ATTEMPTS ==> Game::start(solution).run(moves).status
            == GameStatus::InProgress,
    decreases moves.len(),
{
    if moves.len() > 0 {
        let earlier = moves.drop_last();
        lemma_misses_counted(solution, earlier);
        let before = Game::start(solution).run(earlier);
        match moves.last() {
            Move::Guess(word) => {
                let typed = Game { input: word, ..before };
                if typed.accepts(true) {
                    lemma_record_keeps_wf(Game { input: Seq::empty(), ..typed }, word);
                }
            },
            Move::Tick => {},
        }
    }
}

/// Six misses lose the game: where, from the start of a game, six or more words
/// of five letters that all miss the solution were handed in, in any order with
/// end-of-round checks, and such a check comes last, the status is `Lose`.
pub proof fn lemma_six_misses_lose(solution: Seq<char>, moves: Seq<Move>)
    requires
        solution.len() == WORD_LENGTH,
        all_miss(moves, solution),
        guesses_among(moves) >= MAX_ATTEMPTS,
        moves.len() > 0,
        moves.last() is Tick,
    ensures
        Game::start(solution).run(moves).status == GameStatus::Lose,
{
    let earlier = moves.drop_last();
    lemma_misses_counted(solution, earlier);
}

} // verus!
