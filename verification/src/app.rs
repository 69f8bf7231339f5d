//! The application: it turns keys into moves of the game.

use crate::actions::{spec_resolve, Action, Actions};
use crate::conflicts::lemma_conflict_iff_repeated;
use crate::key::Key;
use crate::state::{AppState, Game, WORD_LENGTH};
use vstd::prelude::*;
use vstd::string::*;

verus! {

/// What the caller is to do after an event was handled.
#[derive(Debug, Clone, Copy, PartialEq, Eq, Structural)]
pub enum AppReturn {
    Exit,
    Continue,
}

/// What pressing `key` tells the caller where `offered` are the actions on
/// offer: to leave where the key asks to quit, to go on otherwise.
pub open spec fn spec_signal(offered: Seq<Action>, key: Key) -> AppReturn {
    if spec_resolve(offered, key) == Some(Action::Quit) {
        AppReturn::Exit
    } else {
        AppReturn::Continue
    }
}

/// The actions on offer before a game is set up.
pub open spec fn actions_at_start() -> Seq<Action> {
    seq![Action::Quit]
}

/// The actions on offer in a game.
pub open spec fn actions_in_game() -> Seq<Action> {
    seq![Action::Quit, Action::Backspace, Action::Submit, Action::Edit]
}

/// What an `App` holds, as a mathematical value.
#[verifier::ext_equal]
pub struct AppView {
    pub actions: Seq<Action>,
    pub is_loading: bool,
    pub state: Game,
}

/// The application: the game, the actions on offer, and whether work handed to
/// the outside is still under way.
#[derive(Debug)]
pub struct App {
    actions: Actions,
    is_loading: bool,
    state: AppState,
}

impl View for App {
    type V = AppView;

    closed spec fn view(&self) -> AppView {
        AppView { actions: self.actions@, is_loading: self.is_loading, state: self.state@ }
    }
}

impl App {
    /// An application that has just started: only quitting is on offer, nothing is
    /// loading, and a game with `solution` as its word begins.
    pub fn new(solution: String) -> (app: App)
        requires
            solution@.len() == WORD_LENGTH,
        ensures
            app@ == (AppView {
                actions: actions_at_start(),
                is_loading: false,
                state: Game::start(solution@),
            }),
            app@.state.wf(),
    {
        let offered = vec![Action::Quit];
        proof {
            lemma_conflict_iff_repeated(offered@);
        }
        let actions = Actions::build(offered).unwrap();
        App { actions, is_loading: false, state: AppState::new(solution) }
    }

    /// Handles one key. What the key asks for is looked up among the actions on
    /// offer: a key whose action is not on offer asks for nothing. `word_is_valid`
    /// says whether the dictionary knows the word typed so far; it matters only
    /// where the key hands that word in. The game changes as `Game::apply` says,
    /// and a key that asks to quit changes nothing and returns `Exit`, whatever
    /// the state.
    pub fn do_action(&mut self, key: Key, word_is_valid: bool) -> (signal: AppReturn)
        ensures
            signal == spec_signal(old(self)@.actions, key),
            final(self)@ == (AppView {
                state: old(self)@.state.apply(
                    spec_resolve(old(self)@.actions, key),
                    key,
                    word_is_valid,
                ),
                ..old(self)@
            }),
            spec_resolve(old(self)@.actions, key) == Some(Action::Quit) ==> signal
                == AppReturn::Exit && final(self)@ == old(self)@,
            spec_resolve(old(self)@.actions, key) is None ==> signal == AppReturn::Continue
                && final(self)@ == old(self)@,
            old(self)@.state.wf() ==> final(self)@.state.wf(),
    {
        match self.actions.find(key) {
            Some(Action::Quit) => AppReturn::Exit,
            Some(Action::Edit) => {
                if let Key::Char(character) = key {
                    self.state.edit_letter(character);
                }
                AppReturn::Continue
            },
            Some(Action::Submit) => {
                self.state.submit(word_is_valid);
                AppReturn::Continue
            },
            Some(Action::Backspace) => {
                self.state.backspace();
                AppReturn::Continue
            },
            None => AppReturn::Continue,
        }
    }

    /// Whether handling `key` will ask what the dictionary says of the word typed:
    /// it does where the key hands in a word of five letters. For any other key,
    /// and for a word of another length, `do_action` does the same whatever it is
    /// told of the word.
    pub fn needs_dictionary(&self, key: Key) -> (needed: bool)
        ensures
            needed == (spec_resolve(self@.actions, key) == Some(Action::Submit)
                && self@.state.input.len() == WORD_LENGTH),
            !needed ==> self@.state.apply(spec_resolve(self@.actions, key), key, true)
                == self@.state.apply(spec_resolve(self@.actions, key), key, false),
    {
        match self.actions.find(key) {
            Some(Action::Submit) => self.state.input.as_str().unicode_len() == WORD_LENGTH,
            _ => false,
        }
    }

    /// Runs the end-of-round check of the game.
    pub fn update_on_tick(&mut self) -> (signal: AppReturn)
        ensures
            signal == AppReturn::Continue,
            final(self)@ == (AppView { state: old(self)@.state.advance(), ..old(self)@ }),
            old(self)@.state.wf() ==> final(self)@.state.wf(),
    {
        self.state.advance();
        AppReturn::Continue
    }

    /// Records how handing work to the outside went: the application is loading
    /// exactly if the work was delivered.
    pub fn dispatch(&mut self, delivered: bool)
        ensures
            final(self)@ == (AppView { is_loading: delivered, ..old(self)@ }),
    {
        self.is_loading = delivered;
    }

    /// The actions on offer.
    pub fn actions(&self) -> (actions: &Actions)
        ensures
            actions@ == self@.actions,
    {
        &self.actions
    }

    /// The state of the game.
    pub fn state(&self) -> (state: &AppState)
        ensures
            state@ == self@.state,
    {
        &self.state
    }

    /// Whether work handed to the outside is still under way.
    pub fn is_loading(&self) -> (loading: bool)
        ensures
            loading == self@.is_loading,
    {
        self.is_loading
    }

    /// Sets the application up for play: every action is on offer, and a new game
    /// with `solution` as its word begins.
    pub fn initialized(&mut self, solution: String)
        requires
            solution@.len() == WORD_LENGTH,
        ensures
            final(self)@ == (AppView {
                actions: actions_in_game(),
                state: Game::start(solution@),
                ..old(self)@
            }),
            final(self)@.state.wf(),
    {
        let offered = vec![Action::Quit, Action::Backspace, Action::Submit, Action::Edit];
        proof {
            lemma_conflict_iff_repeated(offered@);
        }
        self.actions = Actions::build(offered).unwrap();
        self.state = AppState::new(solution);
    }
}

} // verus!
