//! The solver proper: knowledge, candidates and frequency table, with the
//! three steps of a round.

use vstd::prelude::*;

use crate::error::SolverError;
use crate::filter::{apply, survivors};
use crate::knowledge::{Knowledge, KnowledgeState};
use crate::letter::{Letter, LetterState};
use crate::selector::{best_guess, select_index, FrequencyTable};
use crate::word::{acceptable, load_words, loads_as, refused_for, Word};

verus! {

/// What one puzzle is solved with: what is known so far, the words still
/// possible, and the weights that rank them.
#[derive(Clone, Debug)]
pub struct WordleSolver {
    pub knowledge: KnowledgeState,
    pub words: Vec<Word>,
    pub table: FrequencyTable,
}

impl WordleSolver {
    /// A solver over the entries of a word source, with nothing known yet.
    ///
    /// The source must hold at least one entry, and each entry must be five
    /// letters `a`..`z`; of several malformed entries the first is
    /// reported.
    pub fn new(word_source: &Vec<String>, table: FrequencyTable) -> (r: Result<
        WordleSolver,
        SolverError,
    >)
        ensures
            r is Ok <==> acceptable(word_source@),
            r matches Err(error) ==> refused_for(word_source@, error),
            r matches Ok(solver) ==> {
                &&& solver.knowledge@ == Knowledge::blank()
                &&& loads_as(word_source@, solver.words@)
                &&& solver.table == table
            },
    {
        match load_words(word_source) {
            Ok(words) => Ok(WordleSolver { knowledge: KnowledgeState::new(), words, table }),
            Err(e) => Err(e),
        }
    }

    /// Merges the feedback for the tile at `index` into the knowledge.
    ///
    /// Returns whether the feedback was merged. It is not when it reports
    /// `letter` correct at a position pinned to another letter; nothing
    /// changes in that case.
    pub fn insert_letter(&mut self, letter: Letter, state: LetterState, index: usize) -> (merged:
        bool)
        requires
            index < 5,
        ensures
            merged <==> !old(self).knowledge@.conflicts(index as int, letter, state),
            merged ==> final(self).knowledge@ == old(self).knowledge@.record(
                index as int,
                letter,
                state,
            ),
            !merged ==> final(self).knowledge == old(self).knowledge,
            final(self).words == old(self).words,
            final(self).table == old(self).table,
    {
        match self.knowledge.record_feedback(index, letter, state) {
            Ok(()) => true,
            Err(_) => false,
        }
    }

    /// Drops the words that the knowledge no longer admits; the others keep
    /// their order.
    pub fn filter_words(&mut self)
        ensures
            final(self).words@ == survivors(old(self).words@, old(self).knowledge@),
            final(self).words@.len() <= old(self).words@.len(),
            final(self).knowledge == old(self).knowledge,
            final(self).table == old(self).table,
    {
        let kept = apply(&self.words, &self.knowledge);
        self.words = kept;
    }

    /// The word to guess next: the last of the highest-scoring words.
    pub fn find_optimal_word(&self) -> (word: Word)
        requires
            self.words@.len() > 0,
        ensures
            word == best_guess(self.table, self.words@),
    {
        match select_index(&self.words, &self.table) {
            Some(k) => self.words[k],
            None => vstd::pervasive::unreached(),
        }
    }
}

} // verus!
