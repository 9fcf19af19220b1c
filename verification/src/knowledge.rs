//! What is known about the solution, accumulated tile by tile.

use vstd::prelude::*;

use crate::error::SolverError;
use crate::letter::{Letter, LetterState};
use crate::word::Word;

verus! {

/// The mathematical content of a knowledge state.
pub struct Knowledge {
    /// For each of the five positions, the letter known to stand there.
    pub correct_by_position: Seq<Option<Letter>>,
    /// Letters known to be in the solution, each with the positions at
    /// which it is known not to stand.
    pub present_letters: Map<Letter, Set<int>>,
    /// Letters reported absent. Such a letter is ruled out of the solution
    /// unless it is also present or pinned.
    pub absent_letters: Set<Letter>,
}

impl Knowledge {
    /// Shape of a knowledge state: five positions, letters of the alphabet,
    /// banned positions on the board.
    pub open spec fn wf(self) -> bool {
        &&& self.correct_by_position.len() == 5
        &&& forall|l: Letter| #[trigger] self.present_letters.dom().contains(l) ==> l.in_alphabet()
        &&& forall|l: Letter| #[trigger] self.absent_letters.contains(l) ==> l.in_alphabet()
        &&& forall|l: Letter, p: int|
            self.present_letters.dom().contains(l) && #[trigger] self.present_letters[l].contains(p)
                ==> 0 <= p < 5
    }

    /// Nothing known yet.
    pub open spec fn blank() -> Knowledge {
        Knowledge {
            correct_by_position: Seq::new(5, |i: int| None::<Letter>),
            present_letters: Map::empty(),
            absent_letters: Set::empty(),
        }
    }

    /// Some position is pinned to `letter`.
    pub open spec fn pins(self, letter: Letter) -> bool {
        exists|p: int|
            0 <= p < self.correct_by_position.len() && #[trigger] self.correct_by_position[p]
                == Some(letter)
    }

    /// `letter` is known to be in the solution: it is present or pinned.
    pub open spec fn places(self, letter: Letter) -> bool {
        self.present_letters.dom().contains(letter) || self.pins(letter)
    }

    /// Positions at which `letter` is known not to stand.
    pub open spec fn banned(self, letter: Letter) -> Set<int> {
        if self.present_letters.dom().contains(letter) {
            self.present_letters[letter]
        } else {
            Set::empty()
        }
    }

    /// `letter` is ruled out of the solution altogether.
    pub open spec fn excludes(self, letter: Letter) -> bool {
        self.absent_letters.contains(letter) && !self.places(letter)
    }

    /// The one feedback that cannot be merged: correct for `letter` at a
    /// position pinned to another letter.
    pub open spec fn conflicts(self, position: int, letter: Letter, state: LetterState) -> bool {
        &&& state == LetterState::Correct
        &&& self.correct_by_position[position] is Some
        &&& self.correct_by_position[position] != Some(letter)
    }

    /// The state after merging one tile's feedback, where it does not
    /// conflict.
    pub open spec fn record(self, position: int, letter: Letter, state: LetterState) -> Knowledge {
        match state {
            LetterState::Correct => {
                if self.correct_by_position[position] is Some {
                    self
                } else {
                    Knowledge {
                        correct_by_position: self.correct_by_position.update(
                            position,
                            Some(letter),
                        ),
                        present_letters: if self.present_letters.dom().contains(letter) {
                            self.present_letters.insert(
                                letter,
                                self.present_letters[letter].remove(position),
                            )
                        } else {
                            self.present_letters
                        },
                        absent_letters: self.absent_letters,
                    }
                }
            },
            LetterState::Present => Knowledge {
                correct_by_position: self.correct_by_position,
                present_letters: self.present_letters.insert(
                    letter,
                    self.banned(letter).insert(position),
                ),
                absent_letters: self.absent_letters.remove(letter),
            },
            LetterState::Absent => {
                if self.places(letter) {
                    Knowledge {
                        correct_by_position: self.correct_by_position,
                        present_letters: self.present_letters.insert(
                            letter,
                            self.banned(letter).insert(position),
                        ),
                        absent_letters: self.absent_letters,
                    }
                } else {
                    Knowledge {
                        correct_by_position: self.correct_by_position,
                        present_letters: self.present_letters,
                        absent_letters: self.absent_letters.insert(letter),
                    }
                }
            },
        }
    }

    /// A word is consistent with everything known: it has each pinned
    /// letter in its place, holds each present letter away from that
    /// letter's banned positions, and holds no letter that is ruled out.
    pub open spec fn admits(self, word: Word) -> bool {
        &&& forall|i: int|
            0 <= i < 5 ==> (#[trigger] self.correct_by_position[i] matches Some(l) ==> word@[i]
                == l)
        &&& forall|l: Letter| #[trigger]
            self.present_letters.dom().contains(l) ==> {
                &&& word@.contains(l)
                &&& forall|p: int|
                    0 <= p < 5 && self.present_letters[l].contains(p) ==> #[trigger] word@[p] != l
            }
        &&& forall|l: Letter| #[trigger] self.excludes(l) ==> !word@.contains(l)
    }
}

/// What is recorded about one letter.
#[derive(Clone, Copy, Debug, PartialEq, Eq)]
pub struct LetterRecord {
    pub(crate) present: bool,
    pub(crate) absent: bool,
    pub(crate) banned: [bool; 5],
}

/// The knowledge of one session. It starts blank and only grows.
#[derive(Clone, Copy, Debug, PartialEq, Eq)]
pub struct KnowledgeState {
    pub(crate) pinned: [Option<Letter>; 5],
    pub(crate) records: [LetterRecord; 26],
}

impl View for KnowledgeState {
    type V = Knowledge;

    closed spec fn view(&self) -> Knowledge {
        Knowledge {
            correct_by_position: self.pinned@,
            present_letters: Map::new(
                |l: Letter| l.in_alphabet() && self.records@[l.index()].present,
                |l: Letter| Set::new(|p: int| 0 <= p < 5 && self.records@[l.index()].banned@[p]),
            ),
            absent_letters: Set::new(
                |l: Letter| l.in_alphabet() && self.records@[l.index()].absent,
            ),
        }
    }
}

impl KnowledgeState {
    /// Positions are banned only for letters that are present.
    #[verifier::type_invariant]
    spec fn tidy(self) -> bool {
        forall|c: int, p: int|
            0 <= c < 26 && 0 <= p < 5 && #[trigger] self.records@[c].banned@[p]
                ==> self.records@[c].present
    }

    /// Every state has the shape that `Knowledge::wf` describes.
    pub proof fn lemma_view_wf(self)
        ensures
            self@.wf(),
    {
    }

    /// A blank state: nothing pinned, nothing present, nothing absent.
    pub fn new() -> (state: KnowledgeState)
        ensures
            state@ == Knowledge::blank(),
    {
        let blank = LetterRecord { present: false, absent: false, banned: [false; 5] };
        let state = KnowledgeState { pinned: [None; 5], records: [blank; 26] };
        proof {
            assert(state@.correct_by_position =~= Knowledge::blank().correct_by_position);
            assert(state@.present_letters =~= Knowledge::blank().present_letters);
            assert(state@.absent_letters =~= Knowledge::blank().absent_letters);
        }
        state
    }

    /// The letter pinned at `position`, if any.
    pub fn correct_at(&self, position: usize) -> (pinned: Option<Letter>)
        requires
            position < 5,
        ensures
            pinned == self@.correct_by_position[position as int],
    {
        self.pinned[position]
    }

    /// Whether `letter` is among the present letters.
    pub fn is_present(&self, letter: Letter) -> (present: bool)
        ensures
            present == self@.present_letters.dom().contains(letter),
    {
        let c: usize = letter.to_index();
        proof {
            use_type_invariant(&letter);
        }
        self.records[c].present
    }

    /// Whether `position` is banned for `letter`.
    pub fn is_banned(&self, letter: Letter, position: usize) -> (banned: bool)
        requires
            position < 5,
        ensures
            banned == self@.banned(letter).contains(position as int),
    {
        let c: usize = letter.to_index();
        proof {
            use_type_invariant(&letter);
        }
        self.records[c].present && self.records[c].banned[position]
    }

    /// Whether `letter` is among the absent letters.
    pub fn is_absent(&self, letter: Letter) -> (absent: bool)
        ensures
            absent == self@.absent_letters.contains(letter),
    {
        let c: usize = letter.to_index();
        proof {
            use_type_invariant(&letter);
        }
        self.records[c].absent
    }

    /// Whether some position is pinned to `letter`.
    pub fn pins(&self, letter: Letter) -> (pinned: bool)
        ensures
            pinned == self@.pins(letter),
    {
        let mut i: usize = 0;
        while i < 5
            invariant
                i <= 5,
                forall|p: int| 0 <= p < i ==> self.pinned@[p] != Some(letter),
            decreases 5 - i,
        {
            match self.pinned[i] {
                Some(held) => {
                    if held == letter {
                        return true;
                    }
                },
                None => {},
            }
            i += 1;
        }
        false
    }

    /// Whether `letter` is known to be in the solution.
    pub fn places(&self, letter: Letter) -> (placed: bool)
        ensures
            placed == self@.places(letter),
    {
        self.is_present(letter) || self.pins(letter)
    }

    /// Whether `letter` is ruled out of the solution.
    pub fn excludes(&self, letter: Letter) -> (excluded: bool)
        ensures
            excluded == self@.excludes(letter),
    {
        self.is_absent(letter) && !self.places(letter)
    }

    /// Merges the feedback of one tile into the state.
    ///
    /// The only feedback refused is a correct letter for a position that is
    /// pinned to another letter; the state is left as it was. Repeating a
    /// correct letter for the position it is pinned to changes nothing.
    pub fn record_feedback(&mut self, position: usize, letter: Letter, state: LetterState) -> (r:
        Result<(), SolverError>)
        requires
            position < 5,
        ensures
            r is Err <==> old(self)@.conflicts(position as int, letter, state),
            r is Err ==> r == Err::<(), SolverError>(SolverError::ConflictingFeedback)
                && *final(self) == *old(self),
            r is Ok ==> final(self)@ == old(self)@.record(position as int, letter, state),
            state == LetterState::Correct && old(self)@.correct_by_position[position as int]
                == Some(letter) ==> *final(self) == *old(self),
    {
        proof {
            use_type_invariant(&letter);
            use_type_invariant(&*self);
        }
        let c: usize = letter.to_index();
        let ghost before = self@;
        match state {
            LetterState::Correct => {
                match self.pinned[position] {
                    Some(held) => {
                        if held == letter {
                            Ok(())
                        } else {
                            Err(SolverError::ConflictingFeedback)
                        }
                    },
                    None => {
                        self.pinned[position] = Some(letter);
                        let mut rec = self.records[c];
                        if rec.present {
                            rec.banned[position] = false;
                            self.records[c] = rec;
                        }
                        proof {
                            let after = before.record(position as int, letter, state);
                            assert(self@.correct_by_position =~= after.correct_by_position);
                            assert(self@.present_letters =~~= after.present_letters);
                            assert(self@.absent_letters =~= after.absent_letters);
                        }
                        Ok(())
                    },
                }
            },
            LetterState::Present => {
                let mut rec = self.records[c];
                rec.present = true;
                rec.absent = false;
                rec.banned[position] = true;
                self.records[c] = rec;
                proof {
                    let after = before.record(position as int, letter, state);
                    assert(self@.correct_by_position =~= after.correct_by_position);
                    assert(self@.present_letters =~~= after.present_letters);
                    assert(self@.absent_letters =~= after.absent_letters);
                }
                Ok(())
            },
            LetterState::Absent => {
                let known = self.places(letter);
                let mut rec = self.records[c];
                if known {
                    rec.present = true;
                    rec.banned[position] = true;
                } else {
                    rec.absent = true;
                }
                self.records[c] = rec;
                proof {
                    let after = before.record(position as int, letter, state);
                    assert(self@.correct_by_position =~= after.correct_by_position);
                    assert(self@.present_letters =~~= after.present_letters);
                    assert(self@.absent_letters =~= after.absent_letters);
                }
                Ok(())
            },
        }
    }
}

} // verus!
