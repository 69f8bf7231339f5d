//! The actions of the game, the keys bound to them, and catalogs of actions.

use crate::conflicts::{
    binders, find_conflicts, has_conflict, keys_distinct, lemma_report_empty_iff_no_conflict,
    lemma_report_is_exact, lemma_report_names_each_key_once, shares, spec_conflicts, CatalogError,
};
use crate::key::Key;
use vstd::prelude::*;
use vstd::string::*;

verus! {

/// What the player can ask of the game.
#[derive(Debug, Clone, Copy, PartialEq, Eq, Hash, Structural)]
pub enum Action {
    /// Leave the game.
    Quit,
    /// Type one letter of the guess.
    Edit,
    /// Take back the last letter typed.
    Backspace,
    /// Hand in the guess.
    Submit,
}

impl Action {
    /// Every action, in the order of declaration.
    pub open spec fn all() -> Seq<Action> {
        seq![Action::Quit, Action::Edit, Action::Backspace, Action::Submit]
    }

    /// The keys bound to an action, in the order in which they are listed.
    pub open spec fn spec_keys(self) -> Seq<Key> {
        match self {
            Action::Quit => seq![Key::Ctrl('c'), Key::Esc],
            Action::Submit => seq![Key::Enter],
            Action::Backspace => seq![Key::Backspace, Key::Delete],
            Action::Edit => Seq::new(26, |i: int| Key::Char(('a' as int + i) as char)),
        }
    }

    /// Whether `key` is one of the keys bound to this action.
    pub open spec fn binds(self, key: Key) -> bool {
        self.spec_keys().contains(key)
    }

    /// What the name of an action reads.
    pub open spec fn spec_name(self) -> Seq<char> {
        match self {
            Action::Quit => "Quit"@,
            Action::Submit => "Submit Guess"@,
            Action::Backspace => "Delete"@,
            Action::Edit => ""@,
        }
    }

    /// All available actions.
    pub fn iterator() -> (actions: Vec<Action>)
        ensures
            actions@ == Action::all(),
    {
        let mut actions: Vec<Action> = Vec::new();
        actions.push(Action::Quit);
        actions.push(Action::Edit);
        actions.push(Action::Backspace);
        actions.push(Action::Submit);
        actions
    }

    /// The keys bound to an action.
    pub fn keys(&self) -> (keys: Vec<Key>)
        ensures
            keys@ == self.spec_keys(),
    {
        let mut keys: Vec<Key> = Vec::new();
        match self {
            Action::Quit => {
                keys.push(Key::Ctrl('c'));
                keys.push(Key::Esc);
            },
            Action::Submit => {
                keys.push(Key::Enter);
            },
            Action::Backspace => {
                keys.push(Key::Backspace);
                keys.push(Key::Delete);
            },
            Action::Edit => {
                let mut i: u8 = 0;
                while i < 26
                    invariant
                        i <= 26,
                        keys@.len() == i,
                        forall|j: int|
                            0 <= j < i ==> keys@[j] == Key::Char(('a' as int + j) as char),
                    decreases 26 - i,
                {
                    keys.push(Key::Char((97u8 + i) as char));
                    i += 1;
                }
            },
        }
        keys
    }

    /// Whether `key` is bound to this action.
    pub fn is_bound_to(&self, key: Key) -> (r: bool)
        ensures
            r == self.binds(key),
    {
        let keys = self.keys();
        let mut i: usize = 0;
        while i < keys.len()
            invariant
                i <= keys@.len(),
                keys@ == self.spec_keys(),
                forall|j: int| 0 <= j < i ==> keys@[j] != key,
            decreases keys@.len() - i,
        {
            if keys[i] == key {
                return true;
            }
            i += 1;
        }
        false
    }

    /// A short name of the action, for the player to read.
    pub fn to_string(&self) -> (name: String)
        ensures
            name@ == self.spec_name(),
    {
        match self {
            Action::Quit => String::from_str("Quit"),
            Action::Submit => String::from_str("Submit Guess"),
            Action::Backspace => String::from_str("Delete"),
            Action::Edit => String::from_str(""),
        }
    }
}

/// The action that binds `key`, if any of the four does.
pub open spec fn spec_find(key: Key) -> Option<Action> {
    match key {
        Key::Ctrl(c) => if c == 'c' {
            Some(Action::Quit)
        } else {
            None
        },
        Key::Esc => Some(Action::Quit),
        Key::Enter => Some(Action::Submit),
        Key::Backspace | Key::Delete => Some(Action::Backspace),
        Key::Char(c) => if 'a' <= c <= 'z' {
            Some(Action::Edit)
        } else {
            None
        },
    }
}

/// An action binds a key exactly if it is the action that `spec_find` gives for
/// the key.
pub proof fn lemma_binds_iff_found(action: Action, key: Key)
    ensures
        action.binds(key) <==> spec_find(key) == Some(action),
{
    match action {
        Action::Edit => {
            if let Key::Char(c) = key {
                if 'a' <= c <= 'z' {
                    let i = c as int - 'a' as int;
                    assert(action.spec_keys()[i] == key);
                }
            }
        },
        Action::Quit => {
            assert(action.spec_keys()[0] == Key::Ctrl('c'));
            assert(action.spec_keys()[1] == Key::Esc);
        },
        Action::Submit => {
            assert(action.spec_keys()[0] == Key::Enter);
        },
        Action::Backspace => {
            assert(action.spec_keys()[0] == Key::Backspace);
            assert(action.spec_keys()[1] == Key::Delete);
        },
    }
}

/// No key is bound to two different actions.
pub proof fn lemma_bindings_disjoint(a: Action, b: Action, key: Key)
    requires
        a.binds(key),
        b.binds(key),
    ensures
        a == b,
{
    lemma_binds_iff_found(a, key);
    lemma_binds_iff_found(b, key);
}

/// What `key` asks for where `offered` are the actions on offer: the action
/// that binds the key, if it is on offer.
pub open spec fn spec_resolve(offered: Seq<Action>, key: Key) -> Option<Action> {
    match spec_find(key) {
        Some(action) => if offered.contains(action) {
            Some(action)
        } else {
            None
        },
        None => None,
    }
}

/// A key asks for an action exactly if that action is on offer and binds the
/// key. So a key asks for at most one action, whatever is on offer.
pub proof fn lemma_resolve_iff_offered_and_bound(offered: Seq<Action>, key: Key, action: Action)
    ensures
        spec_resolve(offered, key) == Some(action) <==> offered.contains(action) && action.binds(
            key,
        ),
{
    lemma_binds_iff_found(action, key);
}

/// The actions that are on offer at some point of the game: a list in which no
/// two entries have a key in common.
#[derive(Debug)]
pub struct Actions(Vec<Action>);

impl Default for Actions {
    /// A catalog that offers nothing.
    fn default() -> (empty: Actions)
        ensures
            empty@ == Seq::<Action>::empty(),
    {
        Actions(Vec::new())
    }
}

impl View for Actions {
    type V = Seq<Action>;

    closed spec fn view(&self) -> Seq<Action> {
        self.0@
    }
}

impl Clone for Actions {
    fn clone(&self) -> (copy: Actions)
        ensures
            copy@ == self@,
    {
        proof {
            use_type_invariant(self);
        }
        let mut entries: Vec<Action> = Vec::new();
        let mut i: usize = 0;
        while i < self.0.len()
            invariant
                i <= self.0@.len(),
                entries@ == self.0@.take(i as int),
            decreases self.0@.len() - i,
        {
            entries.push(self.0[i]);
            i += 1;
        }
        assert(self.0@.take(i as int) =~= self.0@);
        Actions(entries)
    }
}

impl Actions {
    #[verifier::type_invariant]
    spec fn no_key_bound_twice(&self) -> bool {
        !has_conflict(self.0@)
    }

    /// Makes a catalog of `actions`, or says which keys stand in the way: it
    /// fails exactly if two entries have a key in common, and then reports every
    /// such key with all the entries that bind it.
    pub fn build(actions: Vec<Action>) -> (built: Result<Actions, CatalogError>)
        ensures
            built is Ok <==> !has_conflict(actions@),
            built matches Ok(catalog) ==> catalog@ == actions@,
            built matches Err(error) ==> error@ == spec_conflicts(actions@) && error@.len() > 0,
            built matches Err(error) ==> keys_distinct(error@) && forall|key: Key|
                #![trigger shares(actions@, key)]
                shares(actions@, key) <==> error@.contains((key, binders(actions@, key))),
    {
        let conflicts = find_conflicts(&actions);
        proof {
            lemma_report_empty_iff_no_conflict(actions@);
            lemma_report_names_each_key_once(actions@);
            assert forall|key: Key| #![trigger shares(actions@, key)]
                shares(actions@, key) <==> spec_conflicts(actions@).contains(
                    (key, binders(actions@, key)),
                ) by {
                lemma_report_is_exact(actions@, key);
            }
        }
        if conflicts.len() == 0 {
            Ok(Actions(actions))
        } else {
            Err(CatalogError { conflicts })
        }
    }

    /// Given a key, finds the action that it asks for: the action of this catalog
    /// that binds the key. A key that no action on offer binds asks for nothing.
    pub fn find(&self, key: Key) -> (found: Option<Action>)
        ensures
            found == spec_resolve(self@, key),
            found matches Some(action) ==> self@.contains(action) && action.binds(key),
            found is None ==> forall|action: Action| self@.contains(action) ==> !action.binds(key),
    {
        let mut i: usize = 0;
        while i < self.0.len()
            invariant
                i <= self.0@.len(),
                forall|j: int| 0 <= j < i ==> !self.0@[j].binds(key),
            decreases self.0@.len() - i,
        {
            if self.0[i].is_bound_to(key) {
                proof {
                    lemma_binds_iff_found(self.0@[i as int], key);
                }
                return Some(self.0[i]);
            }
            i += 1;
        }
        proof {
            if let Some(action) = spec_find(key) {
                lemma_binds_iff_found(action, key);
            }
        }
        None
    }

    /// The actions on offer, for a help view.
    pub fn actions(&self) -> (offered: &[Action])
        ensures
            offered@ == self@,
            !has_conflict(offered@),
    {
        proof {
            use_type_invariant(self);
        }
        self.0.as_slice()
    }
}

} // verus!
