//! A session: at most six rounds of guess and feedback on one puzzle.

use vstd::prelude::*;

use crate::error::SolverError;
use crate::filter::{apply, survivors};
use crate::knowledge::{Knowledge, KnowledgeState};
use crate::letter::{Letter, LetterState};
use crate::selector::{best_guess, select, FrequencyTable};
use crate::solver::WordleSolver;
use crate::word::{acceptable, loads_as, refused_for, Word};

verus! {

/// Number of rounds that a session lasts at most.
pub const MAX_ROUNDS: usize = 6;

/// Where a session stands.
#[derive(Clone, Copy, Debug, PartialEq, Eq, Structural)]
pub enum Phase {
    /// A guess is ready and has not been handed out yet.
    AwaitingGuess,
    /// The guess has been handed out; its feedback is due.
    AwaitingFeedback,
    /// A round came back all correct.
    Solved,
    /// Six rounds went by without an all-correct one.
    Exhausted,
    /// No candidate is left that fits the feedback.
    Contradiction,
}

/// What a round of feedback led to.
#[derive(Clone, Copy, Debug, PartialEq, Eq, Structural)]
pub enum RoundOutcome {
    /// The session goes on; a new guess is ready.
    Continue,
    /// All five tiles were correct.
    Solved,
    /// The sixth round is over and the puzzle is not solved.
    Exhausted,
    /// The feedback left no candidate.
    Contradiction,
}

/// The feedback for one tile of a guess: the letter on it and what the
/// board says of it. Its position is its place in the row.
#[derive(Clone, Copy, Debug, PartialEq, Eq, Structural)]
pub struct TileFeedback {
    pub letter: Letter,
    pub state: LetterState,
}

impl TileFeedback {
    /// The feedback that a tile shows: its text names the letter, its state
    /// name the state. A tile whose text is not one letter shows none.
    pub open spec fn shown(letter: Seq<char>, state: Seq<char>) -> Option<TileFeedback> {
        match Letter::named(letter) {
            Some(l) => Some(TileFeedback { letter: l, state: LetterState::named(state) }),
            None => None,
        }
    }

    /// Reads the feedback of one tile from its text and its state name.
    pub fn read(letter: &str, state: &str) -> (r: Option<TileFeedback>)
        ensures
            r == TileFeedback::shown(letter@, state@),
    {
        match Letter::parse(letter) {
            Some(l) => Some(TileFeedback { letter: l, state: LetterState::from_name(state) }),
            None => None,
        }
    }
}

/// The knowledge after merging the first `n` tiles of a row, left to right.
pub open spec fn record_row(knowledge: Knowledge, row: Seq<TileFeedback>, n: nat) -> Knowledge
    decreases n,
{
    if n == 0 {
        knowledge
    } else {
        record_row(knowledge, row, (n - 1) as nat).record(
            n - 1,
            row[n - 1].letter,
            row[n - 1].state,
        )
    }
}

/// One of the first `n` tiles of a row conflicts with the knowledge as it
/// stands when its turn comes.
pub open spec fn row_conflicts(knowledge: Knowledge, row: Seq<TileFeedback>, n: nat) -> bool
    decreases n,
{
    n > 0 && (row_conflicts(knowledge, row, (n - 1) as nat) || record_row(
        knowledge,
        row,
        (n - 1) as nat,
    ).conflicts(n - 1, row[n - 1].letter, row[n - 1].state))
}

/// A conflict among the first `n` tiles is a conflict among the first `m`,
/// for `m` no less than `n`.
pub proof fn lemma_conflict_persists(knowledge: Knowledge, row: Seq<TileFeedback>, n: nat, m: nat)
    requires
        n <= m,
        row_conflicts(knowledge, row, n),
    ensures
        row_conflicts(knowledge, row, m),
    decreases m - n,
{
    if n < m {
        lemma_conflict_persists(knowledge, row, n, (m - 1) as nat);
    }
}

/// Every tile of the row is correct.
pub open spec fn all_correct(row: Seq<TileFeedback>) -> bool {
    forall|i: int| 0 <= i < 5 ==> (#[trigger] row[i]).state == LetterState::Correct
}

/// The mathematical content of a session.
pub struct Session {
    pub knowledge: Knowledge,
    pub candidates: Seq<Word>,
    pub table: FrequencyTable,
    /// The guess of the current round.
    pub guess: Word,
    /// Number of rounds whose feedback has been taken in.
    pub rounds: nat,
    pub phase: Phase,
}

impl Session {
    /// The session has not reached one of its three ends.
    pub open spec fn active(self) -> bool {
        self.phase == Phase::AwaitingGuess || self.phase == Phase::AwaitingFeedback
    }

    /// No more than six rounds, and fewer while the session is active.
    pub open spec fn wf(self) -> bool {
        &&& self.rounds <= MAX_ROUNDS
        &&& self.active() ==> self.rounds < MAX_ROUNDS
    }

    /// The guess that is handed out, if the session is active.
    pub open spec fn pending(self) -> Option<Word> {
        if self.active() {
            Some(self.guess)
        } else {
            None
        }
    }

    /// The session after its guess has been handed out.
    pub open spec fn emitted(self) -> Session {
        if self.phase == Phase::AwaitingGuess {
            Session { phase: Phase::AwaitingFeedback, ..self }
        } else {
            self
        }
    }

    /// What a row of feedback is answered with.
    ///
    /// A session at its end repeats how it ended. A row with a conflicting
    /// tile is refused. Otherwise the row is merged and the candidates are
    /// narrowed; an all-correct row solves the puzzle, an empty candidate
    /// list is a contradiction, the sixth round exhausts the session, and
    /// in any other case it continues.
    pub open spec fn outcome(self, row: Seq<TileFeedback>) -> Result<RoundOutcome, SolverError> {
        match self.phase {
            Phase::Solved => Ok(RoundOutcome::Solved),
            Phase::Exhausted => Ok(RoundOutcome::Exhausted),
            Phase::Contradiction => Ok(RoundOutcome::Contradiction),
            _ => {
                if row_conflicts(self.knowledge, row, 5) {
                    Err(SolverError::ConflictingFeedback)
                } else if all_correct(row) {
                    Ok(RoundOutcome::Solved)
                } else if survivors(self.candidates, record_row(self.knowledge, row, 5)).len()
                    == 0 {
                    Ok(RoundOutcome::Contradiction)
                } else if self.rounds + 1 >= MAX_ROUNDS {
                    Ok(RoundOutcome::Exhausted)
                } else {
                    Ok(RoundOutcome::Continue)
                }
            },
        }
    }

    /// The session after a row of feedback.
    ///
    /// Nothing changes at an end or on a refused row. Otherwise the row is
    /// merged, the candidates are narrowed and the round is counted; where
    /// the session continues, the next guess is the best of the candidates
    /// that are left.
    pub open spec fn after(self, row: Seq<TileFeedback>) -> Session {
        match self.outcome(row) {
            Err(_) => self,
            Ok(outcome) => {
                if !self.active() {
                    self
                } else {
                    let knowledge = record_row(self.knowledge, row, 5);
                    let candidates = survivors(self.candidates, knowledge);
                    let merged = Session {
                        knowledge,
                        candidates,
                        rounds: self.rounds + 1,
                        ..self
                    };
                    match outcome {
                        RoundOutcome::Solved => Session { phase: Phase::Solved, ..merged },
                        RoundOutcome::Contradiction => Session {
                            phase: Phase::Contradiction,
                            ..merged
                        },
                        RoundOutcome::Exhausted => Session { phase: Phase::Exhausted, ..merged },
                        RoundOutcome::Continue => Session {
                            phase: Phase::AwaitingGuess,
                            guess: best_guess(self.table, candidates),
                            ..merged
                        },
                    }
                }
            },
        }
    }
}

/// One attempt at one puzzle.
#[derive(Debug)]
pub struct SolverSession {
    solver: WordleSolver,
    guess: Word,
    rounds: usize,
    phase: Phase,
}

impl View for SolverSession {
    type V = Session;

    closed spec fn view(&self) -> Session {
        Session {
            knowledge: self.solver.knowledge@,
            candidates: self.solver.words@,
            table: self.solver.table,
            guess: self.guess,
            rounds: self.rounds as nat,
            phase: self.phase,
        }
    }
}

impl SolverSession {
    #[verifier::type_invariant]
    spec fn counted(self) -> bool {
        self@.wf()
    }

    /// A session that opens with `opening` and has the solver's candidates
    /// and knowledge.
    pub fn new(solver: WordleSolver, opening: Word) -> (session: SolverSession)
        ensures
            session@ == (Session {
                knowledge: solver.knowledge@,
                candidates: solver.words@,
                table: solver.table,
                guess: opening,
                rounds: 0,
                phase: Phase::AwaitingGuess,
            }),
            session@.wf(),
    {
        SolverSession { solver, guess: opening, rounds: 0, phase: Phase::AwaitingGuess }
    }

    /// Where the session stands.
    pub fn phase(&self) -> (phase: Phase)
        ensures
            phase == self@.phase,
    {
        self.phase
    }

    /// Number of rounds whose feedback has been taken in.
    pub fn rounds(&self) -> (rounds: usize)
        ensures
            rounds == self@.rounds,
            rounds <= MAX_ROUNDS,
    {
        proof {
            use_type_invariant(self);
        }
        self.rounds
    }

    /// The words still possible.
    pub fn candidates(&self) -> (words: &Vec<Word>)
        ensures
            words@ == self@.candidates,
    {
        &self.solver.words
    }

    /// What is known so far.
    pub fn knowledge(&self) -> (knowledge: &KnowledgeState)
        ensures
            knowledge@ == self@.knowledge,
    {
        &self.solver.knowledge
    }

    /// Hands out the guess of the current round, or `None` once the session
    /// is solved, exhausted or contradicted.
    pub fn next_guess(&mut self) -> (guess: Option<Word>)
        ensures
            guess == old(self)@.pending(),
            final(self)@ == old(self)@.emitted(),
            final(self)@.wf(),
    {
        proof {
            use_type_invariant(&*self);
        }
        match self.phase {
            Phase::AwaitingGuess => {
                self.phase = Phase::AwaitingFeedback;
                Some(self.guess)
            },
            Phase::AwaitingFeedback => Some(self.guess),
            _ => None,
        }
    }

    /// Takes in the feedback for the five tiles of the current guess, left
    /// to right, and says what it led to.
    ///
    /// The row is merged tile by tile, the candidates are narrowed, and the
    /// round is counted. A row with a tile that conflicts with what is
    /// pinned is refused as a whole and leaves the session as it was. A
    /// session that has ended takes in nothing and repeats how it ended.
    /// Feedback is taken whether or not the guess has been handed out.
    pub fn submit_feedback(&mut self, row: &[TileFeedback; 5]) -> (r: Result<
        RoundOutcome,
        SolverError,
    >)
        ensures
            r == old(self)@.outcome(row@),
            final(self)@ == old(self)@.after(row@),
            final(self)@.wf(),
            final(self)@.candidates.len() <= old(self)@.candidates.len(),
    {
        proof {
            use_type_invariant(&*self);
        }
        match self.phase {
            Phase::Solved => {
                return Ok(RoundOutcome::Solved);
            },
            Phase::Exhausted => {
                return Ok(RoundOutcome::Exhausted);
            },
            Phase::Contradiction => {
                return Ok(RoundOutcome::Contradiction);
            },
            _ => {},
        }
        let ghost start = self@;
        let mut knowledge = self.solver.knowledge;
        let mut solved = true;
        let mut i: usize = 0;
        while i < 5
            invariant
                i <= 5,
                start == old(self)@,
                start.active(),
                start.wf(),
                self@ == start,
                knowledge@ == record_row(start.knowledge, row@, i as nat),
                !row_conflicts(start.knowledge, row@, i as nat),
                solved == forall|j: int| 0 <= j < i ==> (#[trigger] row@[j]).state
                    == LetterState::Correct,
            decreases 5 - i,
        {
            let tile = row[i];
            match knowledge.record_feedback(i, tile.letter, tile.state) {
                Ok(()) => {},
                Err(e) => {
                    proof {
                        lemma_conflict_persists(start.knowledge, row@, (i + 1) as nat, 5);
                    }
                    return Err(e);
                },
            }
            if tile.state != LetterState::Correct {
                solved = false;
            }
            i += 1;
        }
        let kept = apply(&self.solver.words, &knowledge);
        self.solver.knowledge = knowledge;
        self.solver.words = kept;
        if solved {
            self.phase = Phase::Solved;
            self.rounds = self.rounds + 1;
            return Ok(RoundOutcome::Solved);
        }
        match select(&self.solver.words, &self.solver.table) {
            Err(_) => {
                self.phase = Phase::Contradiction;
                self.rounds = self.rounds + 1;
                Ok(RoundOutcome::Contradiction)
            },
            Ok(word) => {
                if self.rounds + 1 >= MAX_ROUNDS {
                    self.phase = Phase::Exhausted;
                    self.rounds = self.rounds + 1;
                    Ok(RoundOutcome::Exhausted)
                } else {
                    self.guess = word;
                    self.rounds = self.rounds + 1;
                    self.phase = Phase::AwaitingGuess;
                    Ok(RoundOutcome::Continue)
                }
            },
        }
    }
}

/// A word that is known to be well formed.
fn word_of(text: &str) -> (word: Word)
    requires
        Word::is_entry(text@),
    ensures
        word.spelled_by(text@),
{
    match Word::parse(text) {
        Some(word) => word,
        None => vstd::pervasive::unreached(),
    }
}

/// The curated opening words: `adieu`, `audio`, `trace`, `arise`, `crane`.
pub fn opening_words() -> (words: Vec<Word>)
    ensures
        words@.len() == 5,
        words@[0].spelled_by("adieu"@),
        words@[1].spelled_by("audio"@),
        words@[2].spelled_by("trace"@),
        words@[3].spelled_by("arise"@),
        words@[4].spelled_by("crane"@),
{
    proof {
        reveal_strlit("adieu");
        reveal_strlit("audio");
        reveal_strlit("trace");
        reveal_strlit("arise");
        reveal_strlit("crane");
    }
    let mut words: Vec<Word> = Vec::new();
    words.push(word_of("adieu"));
    words.push(word_of("audio"));
    words.push(word_of("trace"));
    words.push(word_of("arise"));
    words.push(word_of("crane"));
    words
}

/// The word that a session opens with: the first of the opening guesses,
/// or the best of the candidates where none is given.
pub open spec fn opening(
    table: FrequencyTable,
    candidates: Seq<Word>,
    opening_guesses: Seq<Word>,
) -> Word {
    if opening_guesses.len() > 0 {
        opening_guesses[0]
    } else {
        best_guess(table, candidates)
    }
}

/// Opens a session on a word source.
///
/// The source is loaded as `WordleSolver::new` loads it, and refused on the
/// same grounds. The session starts with nothing known and opens with the
/// first of `opening_guesses`; with none given, it opens with the best of
/// the candidates.
pub fn new_session(
    word_source: &Vec<String>,
    frequency_table: FrequencyTable,
    opening_guesses: &Vec<Word>,
) -> (r: Result<SolverSession, SolverError>)
    ensures
        r is Ok <==> acceptable(word_source@),
        r matches Err(error) ==> refused_for(word_source@, error),
        r matches Ok(session) ==> {
            &&& session@.knowledge == Knowledge::blank()
            &&& loads_as(word_source@, session@.candidates)
            &&& session@.table == frequency_table
            &&& session@.guess == opening(frequency_table, session@.candidates, opening_guesses@)
            &&& session@.rounds == 0
            &&& session@.phase == Phase::AwaitingGuess
        },
{
    match WordleSolver::new(word_source, frequency_table) {
        Err(error) => Err(error),
        Ok(solver) => {
            let first = if opening_guesses.len() > 0 {
                opening_guesses[0]
            } else {
                solver.find_optimal_word()
            };
            Ok(SolverSession::new(solver, first))
        },
    }
}

} // verus!
