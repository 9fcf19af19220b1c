//! Narrowing a candidate list to the words that the knowledge admits.

use vstd::prelude::*;

use crate::knowledge::{Knowledge, KnowledgeState};
use crate::letter::{Letter, ALPHABET};
use crate::word::Word;

verus! {

/// The candidates that `knowledge` admits, in their order.
pub open spec fn survivors(candidates: Seq<Word>, knowledge: Knowledge) -> Seq<Word> {
    candidates.filter(|word: Word| knowledge.admits(word))
}

/// Whether a word is consistent with everything known.
pub fn admits(state: &KnowledgeState, word: &Word) -> (ok: bool)
    ensures
        ok == state@.admits(*word),
{
    let ghost k = state@;
    proof {
        state.lemma_view_wf();
    }
    let mut i: usize = 0;
    while i < 5
        invariant
            i <= 5,
            k == state@,
            k.wf(),
            forall|j: int|
                0 <= j < i ==> (#[trigger] k.correct_by_position[j] matches Some(l) ==> word@[j]
                    == l),
            forall|j: int| 0 <= j < i ==> !k.banned(#[trigger] word@[j]).contains(j),
            forall|j: int| 0 <= j < i ==> !k.excludes(#[trigger] word@[j]),
        decreases 5 - i,
    {
        let letter = word.letter(i);
        match state.correct_at(i) {
            Some(held) => {
                if held != letter {
                    return false;
                }
            },
            None => {},
        }
        if state.is_banned(letter, i) {
            assert(k.present_letters.dom().contains(letter));
            return false;
        }
        if state.excludes(letter) {
            assert(word@.contains(letter));
            return false;
        }
        i += 1;
    }
    let mut c: usize = 0;
    while c < ALPHABET
        invariant
            c <= ALPHABET,
            k == state@,
            forall|l: Letter|
                l.in_alphabet() && l.index() < c && #[trigger] k.present_letters.dom().contains(l)
                    ==> word@.contains(l),
        decreases ALPHABET - c,
    {
        match Letter::from_index(c) {
            Some(letter) => {
                if state.is_present(letter) && !word.contains(letter) {
                    return false;
                }
            },
            None => {},
        }
        c += 1;
    }
    proof {
        assert forall|l: Letter| #[trigger] k.present_letters.dom().contains(l) implies {
            &&& word@.contains(l)
            &&& forall|p: int|
                0 <= p < 5 && k.present_letters[l].contains(p) ==> #[trigger] word@[p] != l
        } by {
            assert forall|p: int| 0 <= p < 5 && k.present_letters[l].contains(p) implies #[trigger]
                word@[p] != l by {
                assert(!k.banned(word@[p]).contains(p));
            }
        }
        assert forall|l: Letter| #[trigger] k.excludes(l) implies !word@.contains(l) by {
            if word@.contains(l) {
                let j: int = choose|j: int| 0 <= j < word@.len() && word@[j] == l;
                assert(!k.excludes(word@[j]));
            }
        }
    }
    true
}

/// Keeps the candidates that the state admits, in their order.
///
/// Neither input is changed; the result is never longer than the input and
/// may be empty.
pub fn apply(candidates: &Vec<Word>, state: &KnowledgeState) -> (kept: Vec<Word>)
    ensures
        kept@ == survivors(candidates@, state@),
        kept@.len() <= candidates@.len(),
{
    let mut kept: Vec<Word> = Vec::new();
    let mut i: usize = 0;
    proof {
        assert(candidates@.take(0) =~= Seq::<Word>::empty());
        reveal(Seq::filter);
    }
    while i < candidates.len()
        invariant
            i <= candidates@.len(),
            kept@ == survivors(candidates@.take(i as int), state@),
        decreases candidates@.len() - i,
    {
        let word = candidates[i];
        proof {
            assert(candidates@.take(i + 1) =~= candidates@.take(i as int).push(word));
            candidates@.take(i as int).lemma_filter_push(
                word,
                |word: Word| state@.admits(word),
            );
        }
        if admits(state, &word) {
            kept.push(word);
        }
        i += 1;
    }
    proof {
        assert(candidates@.take(i as int) =~= candidates@);
        candidates@.lemma_filter_len(|word: Word| state@.admits(word));
    }
    kept
}

} // verus!
