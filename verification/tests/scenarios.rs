use wordle_solver::filter::apply;
use wordle_solver::selector::{select, FrequencyTable};
use wordle_solver::session::{new_session, Phase, RoundOutcome, TileFeedback};
use wordle_solver::{KnowledgeState, Letter, LetterState, Word};

fn entry(text: &str) -> Word {
    Word::parse(text).unwrap()
}

fn letter_of(c: char) -> Letter {
    Letter::from_char(c).unwrap()
}

fn feedback_row(tiles: [(char, LetterState); 5]) -> [TileFeedback; 5] {
    tiles.map(|(c, state)| TileFeedback { letter: letter_of(c), state })
}

fn source_of(entries: &[&str]) -> Vec<String> {
    entries.iter().map(|entry| entry.to_string()).collect()
}

#[test]
fn select_returns_crane_of_crane_adieu_slate() {
    let mut weights = [1u32; 26];
    for (c, hundredths) in [
        ('e', 5688),
        ('a', 4331),
        ('r', 3864),
        ('n', 3392),
        ('c', 2313),
        ('d', 1725),
        ('i', 3845),
        ('u', 1851),
        ('s', 2923),
        ('l', 2798),
        ('t', 3543),
    ] {
        weights[letter_of(c).to_index()] = hundredths;
    }
    let table = FrequencyTable::from_hundredths(weights).unwrap();
    let words = vec![entry("crane"), entry("adieu"), entry("slate")];
    assert_eq!(select(&words, &table), Ok(entry("crane")));
    let state = KnowledgeState::new();
    assert_eq!(select(&apply(&words, &state), &table), Ok(entry("crane")));
}

#[test]
fn survivors_start_with_a_end_with_e_hold_l_off_index_two_and_no_p() {
    let mut state = KnowledgeState::new();
    state.record_feedback(0, letter_of('a'), LetterState::Correct).unwrap();
    state.record_feedback(1, letter_of('p'), LetterState::Absent).unwrap();
    state.record_feedback(2, letter_of('l'), LetterState::Present).unwrap();
    state.record_feedback(3, letter_of('p'), LetterState::Absent).unwrap();
    state.record_feedback(4, letter_of('e'), LetterState::Correct).unwrap();
    let words: Vec<Word> = [
        "apple", "angle", "aisle", "amble", "ankle", "allee", "alike", "alone", "ample", "addle",
        "eagle", "aglet", "abele", "adieu", "crane", "slate", "axles", "agile",
    ]
    .iter()
    .map(|text| entry(text))
    .collect();
    let kept = apply(&words, &state);
    let spelled: Vec<String> = kept.iter().map(|word| word.to_string()).collect();
    assert_eq!(
        spelled,
        vec!["angle", "aisle", "amble", "ankle", "alike", "alone", "addle", "abele", "agile"]
    );
    for word in &kept {
        assert_eq!(word.letter(0), letter_of('a'));
        assert_eq!(word.letter(4), letter_of('e'));
        assert!(word.contains(letter_of('l')));
        assert_ne!(word.letter(2), letter_of('l'));
        assert!(!word.contains(letter_of('p')));
    }
}

#[test]
fn an_all_correct_row_solves_and_ends_the_guessing() {
    let mut session = new_session(
        &source_of(&["crane", "adieu", "slate"]),
        FrequencyTable::english(),
        &vec![entry("crane")],
    )
    .unwrap();
    assert_eq!(session.next_guess(), Some(entry("crane")));
    let row = feedback_row([
        ('c', LetterState::Correct),
        ('r', LetterState::Correct),
        ('a', LetterState::Correct),
        ('n', LetterState::Correct),
        ('e', LetterState::Correct),
    ]);
    assert_eq!(session.submit_feedback(&row), Ok(RoundOutcome::Solved));
    assert_eq!(session.phase(), Phase::Solved);
    assert_eq!(session.next_guess(), None);
    assert_eq!(session.next_guess(), None);
}

#[test]
fn six_unsolved_rounds_exhaust_the_session() {
    let mut session = new_session(
        &source_of(&["crane", "slate", "adieu", "audio", "trace", "arise"]),
        FrequencyTable::english(),
        &vec![entry("audio")],
    )
    .unwrap();
    let row = feedback_row([('q', LetterState::Absent); 5]);
    let mut guesses = Vec::new();
    let mut outcomes = Vec::new();
    for _ in 0..6 {
        guesses.push(session.next_guess().map(|word| word.to_string()));
        outcomes.push(session.submit_feedback(&row));
    }
    assert_eq!(
        guesses,
        vec![
            Some("audio".to_string()),
            Some("arise".to_string()),
            Some("arise".to_string()),
            Some("arise".to_string()),
            Some("arise".to_string()),
            Some("arise".to_string()),
        ]
    );
    assert_eq!(
        outcomes,
        vec![
            Ok(RoundOutcome::Continue),
            Ok(RoundOutcome::Continue),
            Ok(RoundOutcome::Continue),
            Ok(RoundOutcome::Continue),
            Ok(RoundOutcome::Continue),
            Ok(RoundOutcome::Exhausted),
        ]
    );
    assert_eq!(session.phase(), Phase::Exhausted);
    assert_eq!(session.rounds(), 6);
    assert_eq!(session.next_guess(), None);
    assert_eq!(session.submit_feedback(&row), Ok(RoundOutcome::Exhausted));
    assert_eq!(session.rounds(), 6);
}

#[test]
fn an_empty_candidate_list_is_a_contradiction() {
    let mut session = new_session(
        &source_of(&["crane", "slate"]),
        FrequencyTable::english(),
        &vec![entry("crane")],
    )
    .unwrap();
    assert_eq!(session.next_guess(), Some(entry("crane")));
    let row = feedback_row([
        ('z', LetterState::Present),
        ('q', LetterState::Absent),
        ('q', LetterState::Absent),
        ('q', LetterState::Absent),
        ('q', LetterState::Absent),
    ]);
    assert_eq!(session.submit_feedback(&row), Ok(RoundOutcome::Contradiction));
    assert_eq!(session.phase(), Phase::Contradiction);
    assert_eq!(session.candidates().len(), 0);
    assert_eq!(session.rounds(), 1);
    assert_eq!(session.next_guess(), None);
    assert_eq!(session.next_guess(), None);
    assert_eq!(session.submit_feedback(&row), Ok(RoundOutcome::Contradiction));
}
