use wordle_solver::error::SolverError;
use wordle_solver::letter::Letter;
use wordle_solver::selector::{score_word, select, select_index, FrequencyTable, ENGLISH_HUNDREDTHS};
use wordle_solver::word::Word;

fn parsed(text: &str) -> Word {
    Word::parse(text).unwrap()
}

fn list_of(entries: &[&str]) -> Vec<Word> {
    entries.iter().map(|entry| parsed(entry)).collect()
}

fn flat_table(weight: u32) -> [u32; 26] {
    [weight; 26]
}

#[test]
fn english_table_holds_the_letter_frequencies() {
    let table = FrequencyTable::english();
    let expected = [
        ('e', 5688),
        ('a', 4331),
        ('r', 3864),
        ('i', 3845),
        ('o', 3651),
        ('t', 3543),
        ('n', 3392),
        ('s', 2923),
        ('l', 2798),
        ('c', 2313),
        ('u', 1851),
        ('d', 1725),
        ('p', 1614),
        ('m', 1536),
        ('h', 1531),
        ('g', 1259),
        ('b', 1056),
        ('f', 924),
        ('y', 906),
        ('w', 657),
        ('k', 561),
        ('v', 513),
        ('x', 148),
        ('z', 139),
        ('j', 101),
        ('q', 100),
    ];
    assert_eq!(expected.len(), 26);
    for (c, weight) in expected {
        assert_eq!(table.weight_of(Letter::from_char(c).unwrap()), weight);
    }
    assert_eq!(FrequencyTable::from_hundredths(ENGLISH_HUNDREDTHS), Some(table));
}

#[test]
fn a_table_needs_every_weight_positive() {
    assert!(FrequencyTable::from_hundredths(flat_table(1)).is_some());
    assert!(FrequencyTable::from_hundredths(flat_table(u32::MAX)).is_some());
    assert_eq!(FrequencyTable::from_hundredths(flat_table(0)), None);
    for index in 0..26 {
        let mut weights = flat_table(5);
        weights[index] = 0;
        assert_eq!(FrequencyTable::from_hundredths(weights), None);
    }
}

#[test]
fn a_table_gives_back_the_weights_it_was_made_of() {
    let mut weights = flat_table(1);
    for index in 0..26 {
        weights[index] = 10 * (index as u32) + 3;
    }
    let table = FrequencyTable::from_hundredths(weights).unwrap();
    for index in 0..26 {
        let letter = Letter::from_index(index).unwrap();
        assert_eq!(table.weight_of(letter), 10 * (index as u32) + 3);
    }
}

#[test]
fn score_counts_distinct_letters_in_full() {
    let table = FrequencyTable::english();
    assert_eq!(score_word(&table, &parsed("crane")), 39176);
    assert_eq!(score_word(&table, &parsed("adieu")), 34880);
    assert_eq!(score_word(&table, &parsed("slate")), 38566);
    assert_eq!(score_word(&table, &parsed("nacre")), 39176);
}

#[test]
fn score_counts_a_repeated_letter_at_half() {
    let table = FrequencyTable::english();
    assert_eq!(score_word(&table, &parsed("eerie")), 38170);
    assert_eq!(score_word(&table, &parsed("llama")), 24459);
    assert_eq!(score_word(&table, &parsed("mamma")), 19137);
    assert_eq!(score_word(&table, &parsed("aaaaa")), 25986);
    assert_eq!(score_word(&table, &parsed("qqqqq")), 600);
}

#[test]
fn score_with_unit_weights_counts_tiles() {
    let table = FrequencyTable::from_hundredths(flat_table(1)).unwrap();
    assert_eq!(score_word(&table, &parsed("crane")), 10);
    assert_eq!(score_word(&table, &parsed("eerie")), 8);
    assert_eq!(score_word(&table, &parsed("aaaaa")), 6);
}

#[test]
fn score_does_not_overflow_at_the_largest_weights() {
    let mut weights = flat_table(1);
    weights[0] = 7;
    weights[25] = u32::MAX;
    let table = FrequencyTable::from_hundredths(weights).unwrap();
    assert_eq!(score_word(&table, &parsed("aaaaa")), 42);
    assert_eq!(score_word(&table, &parsed("zzzzz")), 25769803770);
    assert_eq!(score_word(&table, &parsed("azaza")), 12884901913);
    let top = FrequencyTable::from_hundredths(flat_table(u32::MAX)).unwrap();
    assert_eq!(score_word(&top, &parsed("crane")), 10 * (u32::MAX as u64));
}

#[test]
fn select_takes_the_highest_score() {
    let table = FrequencyTable::english();
    let words = list_of(&["crane", "adieu", "slate"]);
    assert_eq!(select(&words, &table), Ok(parsed("crane")));
    assert_eq!(select_index(&words, &table), Some(0));
    let more = list_of(&["adieu", "slate", "arise", "crane", "audio"]);
    assert_eq!(select(&more, &table), Ok(parsed("arise")));
    assert_eq!(select_index(&more, &table), Some(2));
}

#[test]
fn select_of_one_word_is_that_word() {
    let table = FrequencyTable::english();
    assert_eq!(select(&list_of(&["qqqqq"]), &table), Ok(parsed("qqqqq")));
    assert_eq!(select_index(&list_of(&["qqqqq"]), &table), Some(0));
}

#[test]
fn select_refuses_an_empty_list() {
    let table = FrequencyTable::english();
    assert_eq!(select(&Vec::new(), &table), Err(SolverError::EmptyCandidateSet));
    assert_eq!(select_index(&Vec::new(), &table), None);
}

#[test]
fn select_takes_the_later_of_two_equal_scores() {
    let table = FrequencyTable::english();
    assert_eq!(
        score_word(&table, &parsed("crane")),
        score_word(&table, &parsed("nacre"))
    );
    assert_eq!(select(&list_of(&["crane", "nacre"]), &table), Ok(parsed("nacre")));
    assert_eq!(select(&list_of(&["nacre", "crane"]), &table), Ok(parsed("crane")));
    assert_eq!(select_index(&list_of(&["crane", "nacre"]), &table), Some(1));
    assert_eq!(
        select(&list_of(&["crane", "slate", "nacre", "adieu"]), &table),
        Ok(parsed("nacre"))
    );
}

#[test]
fn select_takes_the_last_of_several_equal_scores() {
    let table = FrequencyTable::english();
    let words = list_of(&["nacre", "slate", "crane", "adieu", "arise", "raise", "aires"]);
    assert_eq!(select(&words, &table), Ok(parsed("aires")));
    assert_eq!(select_index(&words, &table), Some(6));
    let same = list_of(&["crane", "crane", "crane"]);
    assert_eq!(select_index(&same, &table), Some(2));
}

#[test]
fn select_is_the_same_on_every_call() {
    let table = FrequencyTable::english();
    let words = list_of(&["raise", "arise", "crane", "nacre", "aires", "slate"]);
    let first = select(&words, &table);
    for _ in 0..10 {
        assert_eq!(select(&words, &table), first);
    }
    assert_eq!(first, Ok(parsed("aires")));
}

#[test]
fn select_prefers_a_word_without_repeats() {
    let table = FrequencyTable::from_hundredths(flat_table(10)).unwrap();
    let words = list_of(&["crane", "eerie", "aaaaa"]);
    assert_eq!(select(&words, &table), Ok(parsed("crane")));
    let repeats = list_of(&["aaaaa", "eerie"]);
    assert_eq!(select(&repeats, &table), Ok(parsed("eerie")));
}
