use wordle_solver::error::SolverError;
use wordle_solver::{FrequencyTable, KnowledgeState, Letter, LetterState, Word, WordleSolver};

fn source(entries: &[&str]) -> Vec<String> {
    entries.iter().map(|entry| entry.to_string()).collect()
}

fn a_word(text: &str) -> Word {
    Word::parse(text).unwrap()
}

fn a_letter(c: char) -> Letter {
    Letter::from_char(c).unwrap()
}

fn spelled_out(words: &[Word]) -> Vec<String> {
    words.iter().map(|word| word.to_string()).collect()
}

#[test]
fn a_new_solver_holds_the_source_and_knows_nothing() {
    let table = FrequencyTable::english();
    let solver = WordleSolver::new(&source(&["crane", "adieu", "slate"]), table).unwrap();
    assert_eq!(spelled_out(&solver.words), vec!["crane", "adieu", "slate"]);
    assert_eq!(solver.knowledge, KnowledgeState::new());
    assert_eq!(solver.table, table);
}

#[test]
fn a_new_solver_refuses_an_empty_source() {
    let r = WordleSolver::new(&Vec::new(), FrequencyTable::english());
    assert_eq!(r.unwrap_err(), SolverError::EmptyWordSource);
}

#[test]
fn a_new_solver_refuses_a_malformed_entry() {
    let r = WordleSolver::new(&source(&["crane", "slate", "to", "x"]), FrequencyTable::english());
    assert_eq!(r.unwrap_err(), SolverError::MalformedWordSource { index: 2 });
}

#[test]
fn insert_letter_merges_feedback() {
    let mut solver =
        WordleSolver::new(&source(&["crane", "adieu", "slate"]), FrequencyTable::english())
            .unwrap();
    assert!(solver.insert_letter(a_letter('c'), LetterState::Correct, 0));
    assert!(solver.insert_letter(a_letter('r'), LetterState::Present, 2));
    assert!(solver.insert_letter(a_letter('q'), LetterState::Absent, 3));
    assert_eq!(solver.knowledge.correct_at(0), Some(a_letter('c')));
    assert!(solver.knowledge.is_banned(a_letter('r'), 2));
    assert!(solver.knowledge.is_absent(a_letter('q')));
    assert_eq!(spelled_out(&solver.words), vec!["crane", "adieu", "slate"]);
}

#[test]
fn insert_letter_reports_a_conflict_and_changes_nothing() {
    let mut solver =
        WordleSolver::new(&source(&["crane", "adieu", "slate"]), FrequencyTable::english())
            .unwrap();
    assert!(solver.insert_letter(a_letter('c'), LetterState::Correct, 0));
    let before = solver.knowledge;
    assert!(!solver.insert_letter(a_letter('s'), LetterState::Correct, 0));
    assert_eq!(solver.knowledge, before);
    assert!(solver.insert_letter(a_letter('c'), LetterState::Correct, 0));
    assert_eq!(solver.knowledge, before);
}

#[test]
fn filter_words_drops_what_the_knowledge_excludes() {
    let mut solver = WordleSolver::new(
        &source(&["crane", "adieu", "slate", "trace", "arise"]),
        FrequencyTable::english(),
    )
    .unwrap();
    solver.insert_letter(a_letter('e'), LetterState::Correct, 4);
    solver.insert_letter(a_letter('s'), LetterState::Absent, 0);
    let knowledge = solver.knowledge;
    solver.filter_words();
    assert_eq!(spelled_out(&solver.words), vec!["crane", "trace"]);
    assert_eq!(solver.knowledge, knowledge);
    solver.filter_words();
    assert_eq!(spelled_out(&solver.words), vec!["crane", "trace"]);
}

#[test]
fn find_optimal_word_is_the_selectors_choice() {
    let mut solver = WordleSolver::new(
        &source(&["crane", "adieu", "slate", "nacre", "arise"]),
        FrequencyTable::english(),
    )
    .unwrap();
    assert_eq!(solver.find_optimal_word(), a_word("arise"));
    solver.insert_letter(a_letter('s'), LetterState::Absent, 0);
    solver.filter_words();
    assert_eq!(spelled_out(&solver.words), vec!["crane", "adieu", "nacre"]);
    assert_eq!(solver.find_optimal_word(), a_word("nacre"));
}

#[test]
fn a_cloned_solver_goes_its_own_way() {
    let mut solver =
        WordleSolver::new(&source(&["crane", "adieu", "slate"]), FrequencyTable::english())
            .unwrap();
    let copy = solver.clone();
    solver.insert_letter(a_letter('c'), LetterState::Correct, 0);
    solver.filter_words();
    assert_eq!(spelled_out(&solver.words), vec!["crane"]);
    assert_eq!(spelled_out(&copy.words), vec!["crane", "adieu", "slate"]);
    assert_eq!(copy.knowledge, KnowledgeState::new());
}
