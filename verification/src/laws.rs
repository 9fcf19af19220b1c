//! What holds of the solver whatever the words and the feedback.

use vstd::prelude::*;

use crate::error::SolverError;
use crate::filter::survivors;
use crate::knowledge::Knowledge;
use crate::letter::{Letter, LetterState};
use crate::selector::{best_guess, choice, is_choice, lemma_choice_unique, score, FrequencyTable};
use crate::session::{
    all_correct, record_row, row_conflicts, Phase, RoundOutcome, Session, TileFeedback,
};
use crate::word::Word;

verus! {

/// Filtering never adds a word: there are no more survivors than
/// candidates.
pub proof fn lemma_filter_narrows(candidates: Seq<Word>, knowledge: Knowledge)
    ensures
        survivors(candidates, knowledge).len() <= candidates.len(),
{
    candidates.lemma_filter_len(|word: Word| knowledge.admits(word));
}

/// Every survivor is a candidate that the knowledge admits, and every
/// candidate that it admits survives.
pub proof fn lemma_survivors_are_the_admitted(candidates: Seq<Word>, knowledge: Knowledge)
    ensures
        forall|i: int|
            0 <= i < survivors(candidates, knowledge).len() ==> {
                &&& knowledge.admits(#[trigger] survivors(candidates, knowledge)[i])
                &&& candidates.contains(survivors(candidates, knowledge)[i])
            },
        forall|i: int|
            0 <= i < candidates.len() && knowledge.admits(#[trigger] candidates[i])
                ==> survivors(candidates, knowledge).contains(candidates[i]),
{
    let admitted = |word: Word| knowledge.admits(word);
    let kept = candidates.filter(admitted);
    assert forall|i: int| 0 <= i < kept.len() implies knowledge.admits(#[trigger] kept[i])
        && candidates.contains(kept[i]) by {
        candidates.lemma_filter_pred(admitted, i);
        assert(kept.contains(kept[i]));
        candidates.lemma_filter_contains_rev(admitted, kept[i]);
    }
    assert forall|i: int|
        0 <= i < candidates.len() && knowledge.admits(
            #[trigger] candidates[i],
        ) implies kept.contains(candidates[i]) by {
        candidates.lemma_filter_contains(admitted, i);
    }
}

/// Over all rounds the candidate list never grows: whatever row a session
/// takes in, it has no more candidates afterwards than before.
pub proof fn lemma_session_narrows(session: Session, row: Seq<TileFeedback>)
    ensures
        session.after(row).candidates.len() <= session.candidates.len(),
{
    lemma_filter_narrows(
        session.candidates,
        record_row(session.knowledge, row, 5),
    );
}

/// A session keeps count: if it was within its six rounds before a row, it
/// is so after it.
pub proof fn lemma_session_keeps_count(session: Session, row: Seq<TileFeedback>)
    requires
        session.wf(),
    ensures
        session.after(row).wf(),
        session.after(row).rounds <= session.rounds + 1,
{
}

/// A session that has ended stays as it is and repeats how it ended.
pub proof fn lemma_ended_session_is_fixed(session: Session, row: Seq<TileFeedback>)
    requires
        !session.active(),
    ensures
        session.after(row) == session,
        session.pending() is None,
        session.outcome(row) is Ok,
        session.outcome(row) != Ok::<RoundOutcome, SolverError>(RoundOutcome::Continue),
{
}

/// A round is answered with "solved" exactly when the session was active
/// and every tile of an accepted row is correct, or when it had been
/// solved before.
pub proof fn lemma_solved_means_all_correct(session: Session, row: Seq<TileFeedback>)
    ensures
        session.outcome(row) == Ok::<RoundOutcome, SolverError>(RoundOutcome::Solved) <==> {
            ||| session.phase == Phase::Solved
            ||| session.active() && !row_conflicts(session.knowledge, row, 5) && all_correct(row)
        },
{
}

/// Reporting a letter correct at the position that is already pinned to it
/// is accepted and changes neither the knowledge nor what survives of any
/// candidate list.
pub proof fn lemma_correct_again_changes_nothing(
    knowledge: Knowledge,
    position: int,
    letter: Letter,
    candidates: Seq<Word>,
)
    requires
        0 <= position < 5,
        knowledge.correct_by_position[position] == Some(letter),
    ensures
        !knowledge.conflicts(position, letter, LetterState::Correct),
        knowledge.record(position, letter, LetterState::Correct) == knowledge,
        survivors(candidates, knowledge.record(position, letter, LetterState::Correct))
            == survivors(candidates, knowledge),
{
}

/// A letter that is absent, and neither present nor pinned, occurs in no
/// survivor.
pub proof fn lemma_absent_letter_is_excluded(
    knowledge: Knowledge,
    candidates: Seq<Word>,
    letter: Letter,
)
    requires
        knowledge.absent_letters.contains(letter),
        !knowledge.present_letters.dom().contains(letter),
        !knowledge.pins(letter),
    ensures
        forall|i: int|
            0 <= i < survivors(candidates, knowledge).len() ==> !(#[trigger] survivors(
                candidates,
                knowledge,
            )[i])@.contains(letter),
{
    lemma_survivors_are_the_admitted(candidates, knowledge);
    assert(knowledge.excludes(letter));
}

/// A present letter occurs in every survivor, and in none of them at a
/// position that is banned for it.
pub proof fn lemma_present_letter_is_placed(
    knowledge: Knowledge,
    candidates: Seq<Word>,
    letter: Letter,
)
    requires
        knowledge.present_letters.dom().contains(letter),
    ensures
        forall|i: int|
            0 <= i < survivors(candidates, knowledge).len() ==> {
                &&& (#[trigger] survivors(candidates, knowledge)[i])@.contains(letter)
                &&& forall|p: int|
                    0 <= p < 5 && knowledge.present_letters[letter].contains(p) ==> survivors(
                        candidates,
                        knowledge,
                    )[i]@[p] != letter
            },
{
    lemma_survivors_are_the_admitted(candidates, knowledge);
}

/// A pinned letter stands at its position in every survivor.
pub proof fn lemma_pinned_letter_is_in_place(
    knowledge: Knowledge,
    candidates: Seq<Word>,
    position: int,
    letter: Letter,
)
    requires
        0 <= position < 5,
        knowledge.correct_by_position[position] == Some(letter),
    ensures
        forall|i: int|
            0 <= i < survivors(candidates, knowledge).len() ==> (#[trigger] survivors(
                candidates,
                knowledge,
            )[i])@[position] == letter,
{
    lemma_survivors_are_the_admitted(candidates, knowledge);
}

/// Once a position is pinned, no feedback that is merged clears it or pins
/// another letter there.
pub proof fn lemma_pins_are_kept(
    knowledge: Knowledge,
    position: int,
    letter: Letter,
    state: LetterState,
    pinned: int,
)
    requires
        knowledge.correct_by_position.len() == 5,
        0 <= position < 5,
        0 <= pinned < 5,
        knowledge.correct_by_position[pinned] is Some,
    ensures
        knowledge.record(position, letter, state).correct_by_position[pinned]
            == knowledge.correct_by_position[pinned],
{
}

/// A letter that is present stays present, with every position that is
/// banned for it, but for the position that it is reported correct at.
pub proof fn lemma_present_letters_are_kept(
    knowledge: Knowledge,
    position: int,
    letter: Letter,
    state: LetterState,
    present: Letter,
    banned: int,
)
    requires
        knowledge.present_letters.dom().contains(present),
        knowledge.present_letters[present].contains(banned),
    ensures
        knowledge.record(position, letter, state).present_letters.dom().contains(present),
        !(state == LetterState::Correct && letter == present && banned == position)
            ==> knowledge.record(position, letter, state).present_letters[present].contains(
            banned,
        ),
{
}

/// Merging feedback keeps the shape of the knowledge.
pub proof fn lemma_record_keeps_shape(
    knowledge: Knowledge,
    position: int,
    letter: Letter,
    state: LetterState,
)
    requires
        knowledge.wf(),
        0 <= position < 5,
        letter.in_alphabet(),
    ensures
        knowledge.record(position, letter, state).wf(),
{
}

/// A list of candidates that is not empty has a choice.
pub proof fn lemma_choice_exists(table: FrequencyTable, candidates: Seq<Word>)
    requires
        candidates.len() > 0,
    ensures
        is_choice(table, candidates, choice(table, candidates)),
        candidates.contains(best_guess(table, candidates)),
    decreases candidates.len(),
{
    if candidates.len() == 1 {
        assert(is_choice(table, candidates, 0));
    } else {
        let front = candidates.drop_last();
        lemma_choice_exists(table, front);
        let k: int = choice(table, front);
        let last: int = candidates.len() - 1;
        assert(forall|j: int| 0 <= j < front.len() ==> front[j] == candidates[j]);
        if score(table, candidates[last]) >= score(table, candidates[k]) {
            assert(is_choice(table, candidates, last));
        } else {
            assert(is_choice(table, candidates, k));
        }
    }
    let k: int = choice(table, candidates);
    assert(candidates[k] == best_guess(table, candidates));
}

/// The guess scores at least as high as every candidate.
pub proof fn lemma_guess_scores_highest(table: FrequencyTable, candidates: Seq<Word>, i: int)
    requires
        0 <= i < candidates.len(),
    ensures
        score(table, candidates[i]) <= score(table, best_guess(table, candidates)),
{
    lemma_choice_exists(table, candidates);
}

/// Of two candidates with the same score the earlier one is never the
/// guess.
pub proof fn lemma_earlier_of_equals_is_not_chosen(
    table: FrequencyTable,
    candidates: Seq<Word>,
    earlier: int,
    later: int,
)
    requires
        0 <= earlier < later < candidates.len(),
        score(table, candidates[earlier]) == score(table, candidates[later]),
    ensures
        choice(table, candidates) != earlier,
{
    lemma_choice_exists(table, candidates);
}

/// Of two candidates with the same score and nothing else to choose from,
/// the guess is the later one.
pub proof fn lemma_later_of_two_equals_is_chosen(table: FrequencyTable, first: Word, second: Word)
    requires
        score(table, first) == score(table, second),
    ensures
        best_guess(table, seq![first, second]) == second,
{
    let candidates = seq![first, second];
    assert(is_choice(table, candidates, 1));
    lemma_choice_unique(table, candidates, 1, 1);
}

} // verus!
