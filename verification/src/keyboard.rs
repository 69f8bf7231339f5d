//! The on-screen keyboard: the best status seen for each letter.

use crate::feedback::{letter_status, LetterStatus};
use vstd::prelude::*;

verus! {

/// The letters that the on-screen keyboard shows: `a` to `z`.
pub open spec fn is_letter(c: char) -> bool {
    'a' <= c <= 'z'
}

/// The overlay after the letter `c` was seen with `status`: a letter enters with
/// its first status, and afterwards its entry changes only to a strictly stronger
/// one. Characters that are no letters leave the overlay as it is.
pub open spec fn overlay_observe(
    overlay: Map<char, LetterStatus>,
    c: char,
    status: LetterStatus,
) -> Map<char, LetterStatus> {
    if is_letter(c) && (!overlay.dom().contains(c) || status.strength() > overlay[c].strength()) {
        overlay.insert(c, status)
    } else {
        overlay
    }
}

/// The overlay after the first `n` letters of `guess`, each with its status
/// against `solution`, were seen in order.
pub open spec fn overlay_fold(
    overlay: Map<char, LetterStatus>,
    guess: Seq<char>,
    solution: Seq<char>,
    n: nat,
) -> Map<char, LetterStatus>
    decreases n,
{
    if n == 0 {
        overlay
    } else {
        overlay_observe(
            overlay_fold(overlay, guess, solution, (n - 1) as nat),
            guess[n - 1],
            letter_status(guess, solution, n - 1),
        )
    }
}

/// The overlay after a whole guess was seen.
pub open spec fn overlay_after_guess(
    overlay: Map<char, LetterStatus>,
    guess: Seq<char>,
    solution: Seq<char>,
) -> Map<char, LetterStatus> {
    overlay_fold(overlay, guess, solution, guess.len())
}

/// The overlay of a game in which `guesses` were evaluated in order, starting
/// from a keyboard on which nothing is marked.
pub open spec fn overlay_of(solution: Seq<char>, guesses: Seq<Seq<char>>) -> Map<char, LetterStatus>
    decreases guesses.len(),
{
    if guesses.len() == 0 {
        Map::empty()
    } else {
        overlay_after_guess(overlay_of(solution, guesses.drop_last()), guesses.last(), solution)
    }
}

/// Whether every letter marked in `before` is marked in `after` as well, and no
/// weaker there.
pub open spec fn no_weaker(
    before: Map<char, LetterStatus>,
    after: Map<char, LetterStatus>,
) -> bool {
    forall|c: char| #[trigger]
        before.dom().contains(c) ==> after.dom().contains(c) && after[c].strength()
            >= before[c].strength()
}

/// Seeing the first `n` letters of a guess takes no mark off the keyboard and
/// weakens none.
pub proof fn lemma_fold_no_weaker(
    overlay: Map<char, LetterStatus>,
    guess: Seq<char>,
    solution: Seq<char>,
    n: nat,
)
    ensures
        no_weaker(overlay, overlay_fold(overlay, guess, solution, n)),
    decreases n,
{
    if n > 0 {
        lemma_fold_no_weaker(overlay, guess, solution, (n - 1) as nat);
    }
}

/// After the first `n` letters of a guess were seen, the keyboard shows for each
/// letter the strongest status that it had, before or in the guess: the marked
/// letters are those marked before and the letters of the guess; a mark is one
/// that the letter had; and it is no weaker than any that the letter had.
pub proof fn lemma_fold_is_best(
    overlay: Map<char, LetterStatus>,
    guess: Seq<char>,
    solution: Seq<char>,
    n: nat,
)
    requires
        n <= guess.len(),
    ensures
        forall|c: char| #[trigger]
            overlay_fold(overlay, guess, solution, n).dom().contains(c) <==> overlay.dom().contains(
                c,
            ) || (is_letter(c) && guess.take(n as int).contains(c)),
        forall|c: char| #[trigger]
            overlay_fold(overlay, guess, solution, n).dom().contains(c) ==> {
                ||| overlay.dom().contains(c) && overlay_fold(overlay, guess, solution, n)[c]
                    == overlay[c]
                ||| exists|i: int|
                    0 <= i < n && guess[i] == c && overlay_fold(overlay, guess, solution, n)[c]
                        == #[trigger] letter_status(guess, solution, i)
            },
        no_weaker(overlay, overlay_fold(overlay, guess, solution, n)),
        forall|i: int|
            0 <= i < n && is_letter(guess[i]) ==> overlay_fold(overlay, guess, solution, n)[guess[i]].strength()
                >= (#[trigger] letter_status(guess, solution, i)).strength(),
    decreases n,
{
    let after = overlay_fold(overlay, guess, solution, n);
    lemma_fold_no_weaker(overlay, guess, solution, n);
    if n > 0 {
        let m = (n - 1) as nat;
        let earlier = overlay_fold(overlay, guess, solution, m);
        let last = guess[n - 1];
        let status = letter_status(guess, solution, n - 1);
        lemma_fold_is_best(overlay, guess, solution, m);
        assert(guess.take(n as int) =~= guess.take(m as int).push(last));
        assert forall|c: char| #[trigger]
            after.dom().contains(c) <==> overlay.dom().contains(c) || (is_letter(c) && guess.take(
                n as int,
            ).contains(c)) by {
            if guess.take(m as int).contains(c) {
                let i = choose|i: int| 0 <= i < m && guess.take(m as int)[i] == c;
                assert(guess.take(n as int)[i] == c);
            }
            if c == last {
                assert(guess.take(n as int)[n - 1] == c);
            }
            if guess.take(n as int).contains(c) && c != last {
                let i = choose|i: int| 0 <= i < n && guess.take(n as int)[i] == c;
                assert(guess.take(m as int)[i] == c);
            }
        }
        assert forall|c: char| #[trigger] after.dom().contains(c) implies {
            ||| overlay.dom().contains(c) && after[c] == overlay[c]
            ||| exists|i: int|
                0 <= i < n && guess[i] == c && after[c] == #[trigger] letter_status(
                    guess,
                    solution,
                    i,
                )
        } by {
            if after[c] == status && c == last {
                assert(guess[n - 1] == c && after[c] == letter_status(guess, solution, n - 1));
            } else {
                assert(earlier.dom().contains(c) && after[c] == earlier[c]);
                if !(overlay.dom().contains(c) && earlier[c] == overlay[c]) {
                    let i = choose|i: int|
                        0 <= i < m && guess[i] == c && earlier[c] == #[trigger] letter_status(
                            guess,
                            solution,
                            i,
                        );
                    assert(guess[i] == c && after[c] == letter_status(guess, solution, i));
                }
            }
        }
        assert forall|i: int| 0 <= i < n && is_letter(guess[i]) implies after[guess[i]].strength()
            >= (#[trigger] letter_status(guess, solution, i)).strength() by {
            if i < m {
                assert(earlier[guess[i]].strength() >= letter_status(guess, solution, i).strength());
                assert(earlier.dom().contains(guess[i])) by {
                    assert(guess.take(m as int)[i] == guess[i]);
                }
            }
        }
    }
}

/// In a game a mark on the keyboard only gets stronger: what the keyboard shows
/// after the first `n` guesses it shows, or something stronger, after all of
/// them. So a letter that is `Correct` once is `Correct` for the rest of the game.
pub proof fn lemma_keyboard_only_upgrades(solution: Seq<char>, guesses: Seq<Seq<char>>, n: int)
    requires
        0 <= n <= guesses.len(),
    ensures
        no_weaker(overlay_of(solution, guesses.take(n)), overlay_of(solution, guesses)),
        forall|c: char| #[trigger]
            overlay_of(solution, guesses.take(n)).dom().contains(c) && overlay_of(
                solution,
                guesses.take(n),
            )[c] == LetterStatus::Correct ==> overlay_of(solution, guesses).dom().contains(c)
                && overlay_of(solution, guesses)[c] == LetterStatus::Correct,
    decreases guesses.len() - n,
{
    if n == guesses.len() {
        assert(guesses.take(n) =~= guesses);
    } else {
        let earlier = guesses.drop_last();
        assert(earlier.take(n) =~= guesses.take(n));
        lemma_keyboard_only_upgrades(solution, earlier, n);
        lemma_fold_no_weaker(
            overlay_of(solution, earlier),
            guesses.last(),
            solution,
            guesses.last().len(),
        );
    }
}

/// The best status seen so far for each letter of the alphabet. A letter that no
/// guess has held yet has no entry.
#[derive(Debug)]
pub struct Keyboard {
    slots: Vec<Option<LetterStatus>>,
}

impl View for Keyboard {
    type V = Map<char, LetterStatus>;

    closed spec fn view(&self) -> Map<char, LetterStatus> {
        Map::new(
            |c: char| is_letter(c) && self.slots@[c as int - 'a' as int] is Some,
            |c: char| self.slots@[c as int - 'a' as int]->0,
        )
    }
}

impl Keyboard {
    #[verifier::type_invariant]
    spec fn one_slot_per_letter(&self) -> bool {
        self.slots@.len() == 26
    }

    /// A keyboard on which nothing is marked.
    pub fn new() -> (keyboard: Keyboard)
        ensures
            keyboard@ == Map::<char, LetterStatus>::empty(),
    {
        let mut slots: Vec<Option<LetterStatus>> = Vec::new();
        let mut i: usize = 0;
        while i < 26
            invariant
                i <= 26,
                slots@.len() == i,
                forall|j: int| 0 <= j < i ==> slots@[j] is None,
            decreases 26 - i,
        {
            slots.push(None);
            i += 1;
        }
        Keyboard { slots }
    }

    /// The status marked on the key `c`, if any.
    pub fn get(&self, c: char) -> (status: Option<LetterStatus>)
        ensures
            status == if self@.dom().contains(c) {
                Some(self@[c])
            } else {
                None
            },
    {
        proof {
            use_type_invariant(self);
        }
        if 'a' <= c && c <= 'z' {
            let slot = (c as u32 - 'a' as u32) as usize;
            self.slots[slot]
        } else {
            None
        }
    }

    /// Marks `c` with `status`, unless the key already shows as much or more.
    pub fn observe(&mut self, c: char, status: LetterStatus)
        ensures
            final(self)@ == overlay_observe(old(self)@, c, status),
    {
        proof {
            use_type_invariant(&*self);
        }
        if 'a' <= c && c <= 'z' {
            let slot = (c as u32 - 'a' as u32) as usize;
            let upgrade = match self.slots[slot] {
                None => true,
                Some(shown) => status.stronger_than(shown),
            };
            if upgrade {
                self.slots[slot] = Some(status);
            }
        }
    }

    /// Marks every letter of `guess` with its status against `solution`.
    pub fn observe_guess(&mut self, guess: &str, solution: &str)
        ensures
            final(self)@ == overlay_after_guess(old(self)@, guess@, solution@),
    {
        let statuses = crate::feedback::evaluate(guess, solution);
        let n = statuses.len();
        let mut i: usize = 0;
        while i < n
            invariant
                n == guess@.len(),
                statuses@ == crate::feedback::spec_evaluate(guess@, solution@),
                i <= n,
                self@ == overlay_fold(old(self)@, guess@, solution@, i as nat),
            decreases n - i,
        {
            let c = vstd::string::StrSliceExecFns::get_char(guess, i);
            self.observe(c, statuses[i]);
            i += 1;
        }
    }
}

} // verus!
