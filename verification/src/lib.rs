//! A solver for five-letter word puzzles: it folds per-tile feedback into a
//! knowledge state, narrows a candidate list, and picks the next guess by
//! letter frequency.

pub mod error;
pub mod filter;
pub mod knowledge;
pub mod laws;
pub mod letter;
pub mod selector;
pub mod session;
pub mod solver;
pub mod soundness;
pub mod word;

pub use error::SolverError;
pub use knowledge::KnowledgeState;
pub use letter::{Letter, LetterState};
pub use selector::FrequencyTable;
pub use session::{new_session, Phase, RoundOutcome, SolverSession, TileFeedback};
pub use solver::WordleSolver;
pub use word::Word;
