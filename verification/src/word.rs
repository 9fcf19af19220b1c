//! Five-letter words and the loading of a word source.

use vstd::prelude::*;
use vstd::string::*;

use crate::error::SolverError;
use crate::letter::Letter;

verus! {

/// Number of tiles in a word.
pub const WORD_LENGTH: usize = 5;

/// A word of exactly five letters.
#[derive(Clone, Copy, Debug, PartialEq, Eq, Hash)]
pub struct Word {
    pub letters: [Letter; 5],
}

impl View for Word {
    type V = Seq<Letter>;

    open spec fn view(&self) -> Seq<Letter> {
        self.letters@
    }
}

/// Wraps `String::push` of the standard library: the character is appended
/// at the end and nothing else changes.
#[verifier::external_body]
fn push_char(text: &mut String, c: char)
    ensures
        final(text)@ == old(text)@.push(c),
{
    text.push(c);
}

impl Word {
    /// A text is an entry of a word source when it is five letters `a`..`z`.
    pub open spec fn is_entry(text: Seq<char>) -> bool {
        &&& text.len() == 5
        &&& forall|i: int| 0 <= i < 5 ==> (#[trigger] Letter::of_char(text[i])) is Some
    }

    /// `text` spells `self`, letter by letter.
    pub open spec fn spelled_by(self, text: Seq<char>) -> bool {
        &&& text.len() == 5
        &&& forall|i: int| 0 <= i < 5 ==> #[trigger] Letter::of_char(text[i]) == Some(self@[i])
    }

    /// The five characters of the word.
    pub open spec fn text(self) -> Seq<char> {
        Seq::new(5, |i: int| self@[i].as_char())
    }

    /// The word with the given letters on its tiles.
    pub fn new(letters: [Letter; 5]) -> (word: Word)
        ensures
            word@ == letters@,
    {
        Word { letters }
    }

    /// Reads a word from text. Succeeds exactly on five letters `a`..`z`.
    pub fn parse(text: &str) -> (r: Option<Word>)
        ensures
            r is Some <==> Word::is_entry(text@),
            r matches Some(word) ==> word.spelled_by(text@),
    {
        if text.unicode_len() != 5 {
            return None;
        }
        let first = match Letter::from_char(text.get_char(0)) {
            Some(l) => l,
            None => {
                return None;
            },
        };
        let mut letters: [Letter; 5] = [first; 5];
        let mut i: usize = 1;
        while i < 5
            invariant
                1 <= i <= 5,
                text@.len() == 5,
                forall|j: int|
                    0 <= j < i ==> #[trigger] Letter::of_char(text@[j]) == Some(letters@[j]),
            decreases 5 - i,
        {
            match Letter::from_char(text.get_char(i)) {
                Some(l) => {
                    letters[i] = l;
                },
                None => {
                    return None;
                },
            }
            i += 1;
        }
        Some(Word { letters })
    }

    /// The letter on tile `i`.
    pub fn letter(&self, i: usize) -> (l: Letter)
        requires
            i < 5,
        ensures
            l == self@[i as int],
    {
        self.letters[i]
    }

    /// Whether some tile of the word holds `letter`.
    pub fn contains(&self, letter: Letter) -> (found: bool)
        ensures
            found == self@.contains(letter),
    {
        let mut i: usize = 0;
        while i < 5
            invariant
                i <= 5,
                forall|j: int| 0 <= j < i ==> self@[j] != letter,
            decreases 5 - i,
        {
            if self.letters[i] == letter {
                return true;
            }
            i += 1;
        }
        false
    }

    /// Spells the word out.
    pub fn to_string(&self) -> (text: String)
        ensures
            text@ == self.text(),
            self.spelled_by(text@),
    {
        let mut text = String::new();
        let mut i: usize = 0;
        while i < 5
            invariant
                i <= 5,
                text@.len() == i,
                forall|j: int| 0 <= j < i ==> text@[j] == self@[j].as_char(),
                forall|j: int|
                    0 <= j < i ==> #[trigger] Letter::of_char(text@[j]) == Some(self@[j]),
            decreases 5 - i,
        {
            let c = self.letters[i].to_char();
            push_char(&mut text, c);
            i += 1;
        }
        assert(text@ =~= self.text());
        text
    }
}

/// The words that a source loads as: one per entry, in order, each spelled
/// by its entry.
pub open spec fn loads_as(lines: Seq<String>, words: Seq<Word>) -> bool {
    &&& words.len() == lines.len()
    &&& forall|i: int| 0 <= i < lines.len() ==> (#[trigger] words[i]).spelled_by(lines[i]@)
}

/// Why a source is refused, if it is: it is empty, or `index` is its first
/// entry that is not five letters `a`..`z`.
pub open spec fn refused_for(lines: Seq<String>, error: SolverError) -> bool {
    match error {
        SolverError::EmptyWordSource => lines.len() == 0,
        SolverError::MalformedWordSource { index } => {
            &&& index < lines.len()
            &&& !Word::is_entry(lines[index as int]@)
            &&& forall|i: int| 0 <= i < index ==> Word::is_entry(#[trigger] lines[i]@)
        },
        _ => false,
    }
}

/// A source is accepted when it is not empty and each entry is five
/// letters `a`..`z`.
pub open spec fn acceptable(lines: Seq<String>) -> bool {
    &&& lines.len() > 0
    &&& forall|i: int| 0 <= i < lines.len() ==> Word::is_entry(#[trigger] lines[i]@)
}

/// Turns the records of a word source into candidates, keeping their order.
///
/// An empty source and a source with a malformed entry are refused; of
/// several malformed entries the first is reported.
pub fn load_words(lines: &Vec<String>) -> (r: Result<Vec<Word>, SolverError>)
    ensures
        r is Ok <==> acceptable(lines@),
        r matches Ok(words) ==> loads_as(lines@, words@),
        r matches Err(error) ==> refused_for(lines@, error),
{
    if lines.len() == 0 {
        return Err(SolverError::EmptyWordSource);
    }
    let mut words: Vec<Word> = Vec::new();
    let mut i: usize = 0;
    while i < lines.len()
        invariant
            i <= lines@.len(),
            words@.len() == i,
            forall|j: int| 0 <= j < i ==> (#[trigger] words@[j]).spelled_by(lines@[j]@),
            forall|j: int| 0 <= j < i ==> Word::is_entry(#[trigger] lines@[j]@),
        decreases lines@.len() - i,
    {
        match Word::parse(lines[i].as_str()) {
            Some(word) => {
                words.push(word);
            },
            None => {
                return Err(SolverError::MalformedWordSource { index: i });
            },
        }
        i += 1;
    }
    Ok(words)
}

} // verus!
