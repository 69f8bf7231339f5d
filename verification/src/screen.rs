//! What a view needs to draw the game: the board, the keyboard and the closing
//! message.

use crate::feedback::LetterStatus;
use crate::state::{AppState, Game, GameStatus, MAX_ATTEMPTS, WORD_LENGTH};
use crate::text::{decimal, decimal_string};
use vstd::prelude::*;
use vstd::string::*;

verus! {

/// The square at `row` and `col` of the board: a letter of a guess with its
/// status where the guess and its feedback reach that far, a blank otherwise.
pub open spec fn spec_square(game: Game, row: int, col: int) -> (char, Option<LetterStatus>) {
    if 0 <= row < game.guesses.len() && 0 <= col < game.guesses[row].len() {
        (
            game.guesses[row][col],
            if row < game.feedback.len() && col < game.feedback[row].len() {
                Some(game.feedback[row][col])
            } else {
                None
            },
        )
    } else {
        (' ', None)
    }
}

/// One row of the board: five squares.
pub open spec fn spec_board_row(game: Game, row: int) -> Seq<(char, Option<LetterStatus>)> {
    Seq::new(WORD_LENGTH as nat, |col: int| spec_square(game, row, col))
}

/// The board: six rows, one for each attempt that the game allows.
pub open spec fn spec_board(game: Game) -> Seq<Seq<(char, Option<LetterStatus>)>> {
    Seq::new(MAX_ATTEMPTS as nat, |row: int| spec_board_row(game, row))
}

/// The views of the rows of a board.
pub open spec fn board_rows(
    board: Seq<Vec<(char, Option<LetterStatus>)>>,
) -> Seq<Seq<(char, Option<LetterStatus>)>> {
    Seq::new(board.len(), |row: int| board[row]@)
}

/// The letters of the three rows of the keyboard, from the top.
pub open spec fn key_row_letters(row: int) -> Seq<char> {
    if row == 0 {
        "qwertyuiop"@
    } else if row == 1 {
        "asdfghjkl"@
    } else if row == 2 {
        "zxcvbnm"@
    } else {
        Seq::empty()
    }
}

/// What the key of the letter `c` shows.
pub open spec fn spec_key(game: Game, c: char) -> (char, Option<LetterStatus>) {
    (
        c,
        if game.keyboard.dom().contains(c) {
            Some(game.keyboard[c])
        } else {
            None
        },
    )
}

/// One row of the keyboard: each letter with the mark that it bears.
pub open spec fn spec_key_row(game: Game, row: int) -> Seq<(char, Option<LetterStatus>)> {
    key_row_letters(row).map_values(|c: char| spec_key(game, c))
}

/// What is said to the player when the game is over: after a win the number of
/// attempts that it took, after a loss the solution. Nothing while the game is on.
pub open spec fn spec_popup(game: Game) -> Option<Seq<char>> {
    match game.status {
        GameStatus::InProgress => None,
        GameStatus::Win => Some(
            "You have won! It took "@ + decimal(game.attempt)
                + " attempts.\nPress ESC or CTRL+C to exit"@,
        ),
        GameStatus::Lose => Some(
            "You lost. The correct word was \""@ + game.solution
                + "\".\nPress ESC or CTRL+C to exit"@,
        ),
    }
}

impl AppState {
    /// Row `row` of the board, for a view to draw.
    pub fn board_row(&self, row: usize) -> (squares: Vec<(char, Option<LetterStatus>)>)
        ensures
            squares@ == spec_board_row(self@, row as int),
    {
        let mut squares: Vec<(char, Option<LetterStatus>)> = Vec::new();
        let mut col: usize = 0;
        while col < WORD_LENGTH
            invariant
                col <= WORD_LENGTH,
                squares@.len() == col,
                forall|j: int| 0 <= j < col ==> squares@[j] == spec_square(self@, row as int, j),
            decreases WORD_LENGTH - col,
        {
            let mut square = (' ', None);
            if row < self.guesses.len() {
                let guess = self.guesses[row].as_str();
                if col < guess.unicode_len() {
                    let status = if row < self.feedback.len() && col < self.feedback[row].len() {
                        Some(self.feedback[row][col])
                    } else {
                        None
                    };
                    square = (guess.get_char(col), status);
                }
            }
            squares.push(square);
            col += 1;
        }
        squares
    }

    /// The board, for a view to draw.
    pub fn board(&self) -> (board: Vec<Vec<(char, Option<LetterStatus>)>>)
        ensures
            board_rows(board@) == spec_board(self@),
    {
        let mut board: Vec<Vec<(char, Option<LetterStatus>)>> = Vec::new();
        let mut row: usize = 0;
        while row < 6
            invariant
                row <= 6,
                board@.len() == row,
                forall|j: int| 0 <= j < row ==> (#[trigger] board@[j])@ == spec_board_row(self@, j),
            decreases 6 - row,
        {
            board.push(self.board_row(row));
            row += 1;
        }
        assert(board_rows(board@) =~= spec_board(self@));
        board
    }

    /// Row `row` of the keyboard, for a view to draw.
    pub fn key_row(&self, row: usize) -> (keys: Vec<(char, Option<LetterStatus>)>)
        ensures
            keys@ == spec_key_row(self@, row as int),
    {
        let letters = if row == 0 {
            "qwertyuiop"
        } else if row == 1 {
            "asdfghjkl"
        } else if row == 2 {
            "zxcvbnm"
        } else {
            ""
        };
        proof {
            reveal_strlit("");
        }
        let n = letters.unicode_len();
        let mut keys: Vec<(char, Option<LetterStatus>)> = Vec::new();
        let mut i: usize = 0;
        while i < n
            invariant
                n == letters@.len(),
                i <= n,
                keys@.len() == i,
                forall|j: int| 0 <= j < i ==> keys@[j] == spec_key(self@, letters@[j]),
            decreases n - i,
        {
            let c = letters.get_char(i);
            keys.push((c, self.keyboard.get(c)));
            i += 1;
        }
        keys
    }

    /// What to tell the player when the game is over.
    pub fn popup(&self) -> (message: Option<String>)
        ensures
            match message {
                Some(text) => spec_popup(self@) == Some(text@),
                None => spec_popup(self@) is None,
            },
    {
        match self.game_status {
            GameStatus::InProgress => None,
            GameStatus::Win => {
                let mut text = String::from_str("You have won! It took ");
                text.append(decimal_string(self.attempt).as_str());
                text.append(" attempts.\nPress ESC or CTRL+C to exit");
                Some(text)
            },
            GameStatus::Lose => {
                let mut text = String::from_str("You lost. The correct word was \"");
                text.append(self.solution.as_str());
                text.append("\".\nPress ESC or CTRL+C to exit");
                Some(text)
            },
        }
    }
}

} // verus!
