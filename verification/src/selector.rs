//! Scoring candidates by letter frequency and choosing the next guess.

use vstd::prelude::*;

use crate::error::SolverError;
use crate::letter::{Letter, ALPHABET};
use crate::word::Word;

verus! {

/// How often each letter `a`..`z` occurs in English words, relative to `q`
/// and in hundredths: `e`, at 5688, occurs 56.88 times as often as `q`.
pub const ENGLISH_HUNDREDTHS: [u32; 26] = [
    4331, 1056, 2313, 1725, 5688, 924, 1259, 1531, 3845, 101, 561, 2798, 1536,
    3392, 3651, 1614, 100, 3864, 2923, 3543, 1851, 513, 657, 148, 906, 139,
];

/// A positive weight for each letter. Weights are fixed-point numbers in
/// hundredths: 5688 stands for 56.88.
#[derive(Clone, Copy, Debug, PartialEq, Eq)]
pub struct FrequencyTable {
    pub(crate) weights: [u32; 26],
}

impl FrequencyTable {
    #[verifier::type_invariant]
    spec fn positive(self) -> bool {
        forall|c: int| 0 <= c < 26 ==> #[trigger] self.weights@[c] > 0
    }

    /// Weight of a letter, in hundredths.
    pub closed spec fn weight(self, letter: Letter) -> nat {
        self.weights@[letter.index()] as nat
    }

    /// A table with the given weights, `weights[0]` for `a` through
    /// `weights[25]` for `z`. Every weight must be positive.
    pub fn from_hundredths(weights: [u32; 26]) -> (r: Option<FrequencyTable>)
        ensures
            r is Some <==> forall|c: int| 0 <= c < 26 ==> #[trigger] weights@[c] > 0,
            r matches Some(table) ==> forall|l: Letter|
                l.in_alphabet() ==> #[trigger] table.weight(l) == weights@[l.index()],
    {
        let mut c: usize = 0;
        while c < ALPHABET
            invariant
                c <= ALPHABET,
                forall|d: int| 0 <= d < c ==> #[trigger] weights@[d] > 0,
            decreases ALPHABET - c,
        {
            if weights[c] == 0 {
                return None;
            }
            c += 1;
        }
        Some(FrequencyTable { weights })
    }

    /// The built-in table of English letter frequencies.
    pub fn english() -> (table: FrequencyTable)
        ensures
            forall|l: Letter|
                l.in_alphabet() ==> #[trigger] table.weight(l) == ENGLISH_HUNDREDTHS@[l.index()],
    {
        FrequencyTable { weights: ENGLISH_HUNDREDTHS }
    }

    /// Weight of a letter, in hundredths.
    pub fn weight_of(&self, letter: Letter) -> (w: u32)
        ensures
            w == self.weight(letter),
            w > 0,
    {
        proof {
            use_type_invariant(self);
            use_type_invariant(&letter);
        }
        self.weights[letter.to_index()]
    }
}

/// What tile `i` of a word adds to its score: twice the letter's weight
/// where the letter has not occurred on an earlier tile, once the weight
/// where it has. Scores are thus in two-hundredths, and the half that a
/// repeated letter counts for stays exact.
pub open spec fn tile_score(table: FrequencyTable, word: Word, i: int) -> nat {
    if word@.take(i).contains(word@[i]) {
        table.weight(word@[i])
    } else {
        2 * table.weight(word@[i])
    }
}

/// What the first `n` tiles of a word add up to.
pub open spec fn score_of_tiles(table: FrequencyTable, word: Word, n: nat) -> nat
    decreases n,
{
    if n == 0 {
        0
    } else {
        score_of_tiles(table, word, (n - 1) as nat) + tile_score(table, word, n - 1)
    }
}

/// Score of a word: the sum over its five tiles.
pub open spec fn score(table: FrequencyTable, word: Word) -> nat {
    score_of_tiles(table, word, 5)
}

/// `k` is the index of the guess to make: no candidate scores higher, and
/// every later candidate scores strictly lower.
pub open spec fn is_choice(table: FrequencyTable, candidates: Seq<Word>, k: int) -> bool {
    &&& 0 <= k < candidates.len()
    &&& forall|j: int|
        0 <= j < candidates.len() ==> score(table, #[trigger] candidates[j]) <= score(
            table,
            candidates[k],
        )
    &&& forall|j: int|
        k < j < candidates.len() ==> score(table, #[trigger] candidates[j]) < score(
            table,
            candidates[k],
        )
}

/// The index that `is_choice` singles out, where there is a candidate.
pub open spec fn choice(table: FrequencyTable, candidates: Seq<Word>) -> int {
    choose|k: int| is_choice(table, candidates, k)
}

/// The guess to make from a list of candidates that is not empty.
pub open spec fn best_guess(table: FrequencyTable, candidates: Seq<Word>) -> Word {
    candidates[choice(table, candidates)]
}

/// At most one index is the choice.
pub proof fn lemma_choice_unique(table: FrequencyTable, candidates: Seq<Word>, k: int, m: int)
    requires
        is_choice(table, candidates, k),
        is_choice(table, candidates, m),
    ensures
        k == m,
        choice(table, candidates) == k,
{
    if k < m {
        assert(score(table, candidates[m]) < score(table, candidates[k]));
        assert(score(table, candidates[k]) <= score(table, candidates[m]));
    } else if m < k {
        assert(score(table, candidates[k]) < score(table, candidates[m]));
        assert(score(table, candidates[m]) <= score(table, candidates[k]));
    }
    let c: int = choice(table, candidates);
    if c < k {
        assert(score(table, candidates[k]) < score(table, candidates[c]));
        assert(score(table, candidates[c]) <= score(table, candidates[k]));
    } else if k < c {
        assert(score(table, candidates[c]) < score(table, candidates[k]));
        assert(score(table, candidates[k]) <= score(table, candidates[c]));
    }
}

/// Computes the score of a word.
pub fn score_word(table: &FrequencyTable, word: &Word) -> (total: u64)
    ensures
        total == score(*table, *word),
{
    let mut total: u64 = 0;
    let mut i: usize = 0;
    while i < 5
        invariant
            i <= 5,
            total == score_of_tiles(*table, *word, i as nat),
            total <= i * 2 * u32::MAX,
        decreases 5 - i,
    {
        let letter = word.letter(i);
        let mut repeated = false;
        let mut j: usize = 0;
        while j < i
            invariant
                j <= i,
                i < 5,
                letter == word@[i as int],
                repeated == word@.take(j as int).contains(letter),
            decreases i - j,
        {
            if word.letter(j) == letter {
                repeated = true;
                assert(word@.take(j + 1)[j as int] == letter);
            } else {
                assert(word@.take(j + 1) =~= word@.take(j as int).push(word@[j as int]));
                assert(forall|x: int|
                    0 <= x < j + 1 && word@.take(j + 1)[x] == letter ==> word@.take(j as int)[x]
                        == letter);
            }
            j += 1;
        }
        let weight: u64 = table.weight_of(letter) as u64;
        if repeated {
            total = total + weight;
        } else {
            total = total + 2 * weight;
        }
        i += 1;
    }
    total
}

/// Index of the candidate to guess next: the last of those with the
/// highest score. `None` exactly when there is no candidate.
pub fn select_index(candidates: &Vec<Word>, table: &FrequencyTable) -> (r: Option<usize>)
    ensures
        r is None <==> candidates@.len() == 0,
        r matches Some(k) ==> is_choice(*table, candidates@, k as int) && k == choice(
            *table,
            candidates@,
        ),
{
    if candidates.len() == 0 {
        return None;
    }
    let mut best: usize = 0;
    let mut best_score: u64 = score_word(table, &candidates[0]);
    let mut i: usize = 1;
    while i < candidates.len()
        invariant
            1 <= i <= candidates@.len(),
            best < i,
            best_score == score(*table, candidates@[best as int]),
            forall|j: int|
                0 <= j < i ==> score(*table, #[trigger] candidates@[j]) <= best_score,
            forall|j: int|
                best < j < i ==> score(*table, #[trigger] candidates@[j]) < best_score,
        decreases candidates@.len() - i,
    {
        let current: u64 = score_word(table, &candidates[i]);
        if current >= best_score {
            best = i;
            best_score = current;
        }
        i += 1;
    }
    proof {
        lemma_choice_unique(*table, candidates@, best as int, best as int);
    }
    Some(best)
}

/// The candidate to guess next: one with the highest score, and of several
/// with that score the last in the list. An empty list is refused.
pub fn select(candidates: &Vec<Word>, table: &FrequencyTable) -> (r: Result<Word, SolverError>)
    ensures
        r is Err <==> candidates@.len() == 0,
        r is Err ==> r == Err::<Word, SolverError>(SolverError::EmptyCandidateSet),
        r matches Ok(word) ==> word == best_guess(*table, candidates@) && is_choice(
            *table,
            candidates@,
            choice(*table, candidates@),
        ),
{
    match select_index(candidates, table) {
        Some(k) => Ok(candidates[k]),
        None => Err(SolverError::EmptyCandidateSet),
    }
}

} // verus!
