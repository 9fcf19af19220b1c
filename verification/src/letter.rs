//! The alphabet of the puzzle and the three kinds of tile feedback.

use vstd::prelude::*;
use vstd::string::*;

verus! {

/// Number of letters in the alphabet.
pub const ALPHABET: usize = 26;

/// What the board says about one tile of a guess.
#[derive(Clone, Copy, Debug, PartialEq, Eq, Hash, Structural)]
pub enum LetterState {
    /// The letter is not in the solution (or has no further occurrence).
    Absent,
    /// The letter is in the solution, at another position.
    Present,
    /// The letter is in the solution at this position.
    Correct,
}

impl LetterState {
    /// The state that a tile's state name stands for. A name other than
    /// `present` and `correct` counts as absent.
    pub open spec fn named(name: Seq<char>) -> LetterState {
        if name == "present"@ {
            LetterState::Present
        } else if name == "correct"@ {
            LetterState::Correct
        } else {
            LetterState::Absent
        }
    }

    /// Reads a state from the name that a board gives it.
    pub fn from_name(name: &str) -> (state: LetterState)
        ensures
            state == LetterState::named(name@),
    {
        let owned = name.to_owned();
        if owned == String::from_str("present") {
            LetterState::Present
        } else if owned == String::from_str("correct") {
            LetterState::Correct
        } else {
            LetterState::Absent
        }
    }
}

impl From<String> for LetterState {
    /// The state that a state name stands for, as `from_name` reads it.
    fn from(name: String) -> (state: LetterState) {
        LetterState::from_name(name.as_str())
    }
}

impl vstd::std_specs::convert::FromSpecImpl<String> for LetterState {
    open spec fn obeys_from_spec() -> bool {
        true
    }

    open spec fn from_spec(name: String) -> LetterState {
        LetterState::named(name@)
    }
}

/// A lowercase letter `a`..`z`, held as its offset from `a`.
#[derive(Clone, Copy, Debug, PartialEq, Eq, Hash, Structural)]
pub struct Letter {
    pub(crate) code: u8,
}

impl Letter {
    #[verifier::type_invariant]
    pub open(crate) spec fn in_alphabet(self) -> bool {
        self.code < 26
    }

    /// Offset of the letter from `a`.
    pub open(crate) spec fn index(self) -> int {
        self.code as int
    }

    /// The letter that a character stands for, if it is one of `a`..`z`.
    pub open(crate) spec fn of_char(c: char) -> Option<Letter> {
        if 'a' <= c <= 'z' {
            Some(Letter { code: (c as int - 'a' as int) as u8 })
        } else {
            None
        }
    }

    /// The character that spells the letter.
    pub open(crate) spec fn as_char(self) -> char {
        (self.code as int + 'a' as int) as char
    }

    /// Reads a letter from a character; anything but `a`..`z` is refused.
    pub fn from_char(c: char) -> (r: Option<Letter>)
        ensures
            r == Letter::of_char(c),
    {
        if 'a' <= c && c <= 'z' {
            let code: u8 = ((c as u32) - ('a' as u32)) as u8;
            Some(Letter { code })
        } else {
            None
        }
    }

    /// The letter that a text names, if the text is one character of
    /// `a`..`z` and nothing else.
    pub open(crate) spec fn named(text: Seq<char>) -> Option<Letter> {
        if text.len() == 1 {
            Letter::of_char(text[0])
        } else {
            None
        }
    }

    /// Reads a letter from the text of a tile: exactly one character of
    /// `a`..`z`.
    pub fn parse(text: &str) -> (r: Option<Letter>)
        ensures
            r == Letter::named(text@),
    {
        if text.unicode_len() == 1 {
            Letter::from_char(text.get_char(0))
        } else {
            None
        }
    }

    /// The letter at offset `index` from `a`, for an offset below 26.
    pub fn from_index(index: usize) -> (r: Option<Letter>)
        ensures
            r is Some <==> index < ALPHABET,
            r matches Some(letter) ==> letter.index() == index && letter.in_alphabet(),
    {
        if index < ALPHABET {
            Some(Letter { code: index as u8 })
        } else {
            None
        }
    }

    /// The character that spells the letter.
    pub fn to_char(self) -> (c: char)
        ensures
            c == self.as_char(),
            Letter::of_char(c) == Some(self),
    {
        proof {
            use_type_invariant(&self);
        }
        (self.code + 97u8) as char
    }

    /// Offset of the letter from `a`, as a table index.
    pub fn to_index(self) -> (i: usize)
        ensures
            i == self.index(),
            i < ALPHABET,
    {
        proof {
            use_type_invariant(&self);
        }
        self.code as usize
    }
}

} // verus!
