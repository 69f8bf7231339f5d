//! The keys that the game listens to.

use vstd::prelude::*;
use vstd::string::*;

verus! {

/// One input event, as the game sees it.
#[derive(Debug, Clone, Copy, PartialEq, Eq, Hash, Structural)]
pub enum Key {
    /// A printable character.
    Char(char),
    /// A character typed while Control is held.
    Ctrl(char),
    Enter,
    Esc,
    Backspace,
    Delete,
}

impl Key {
    /// How a key is written in a message: its name between angle brackets.
    pub open spec fn spec_name(self) -> Seq<char> {
        match self {
            Key::Char(c) => "<"@.push(c) + ">"@,
            Key::Ctrl(c) => "<Ctrl+"@.push(c) + ">"@,
            Key::Enter => "<Enter>"@,
            Key::Esc => "<Esc>"@,
            Key::Backspace => "<Backspace>"@,
            Key::Delete => "<Delete>"@,
        }
    }

    /// The key as it is written in a message.
    pub fn to_string(&self) -> (name: String)
        ensures
            name@ == self.spec_name(),
    {
        match self {
            Key::Char(c) => {
                let mut name = String::from_str("<");
                name.push(*c);
                name.append(">");
                name
            },
            Key::Ctrl(c) => {
                let mut name = String::from_str("<Ctrl+");
                name.push(*c);
                name.append(">");
                name
            },
            Key::Enter => String::from_str("<Enter>"),
            Key::Esc => String::from_str("<Esc>"),
            Key::Backspace => String::from_str("<Backspace>"),
            Key::Delete => String::from_str("<Delete>"),
        }
    }
}

} // verus!
