//! Feedback that is true of the solution never costs the solution: it is
//! merged without conflict, and the solution stays a candidate.

use vstd::prelude::*;

use crate::error::SolverError;
use crate::filter::survivors;
use crate::knowledge::Knowledge;
use crate::letter::{Letter, LetterState};
use crate::session::{record_row, row_conflicts, RoundOutcome, Session, TileFeedback};
use crate::word::Word;

verus! {

/// Tile `i` of a row says nothing false of `solution`.
///
/// A correct letter stands at the tile's position. A present letter is in
/// the solution, elsewhere. An absent letter does not stand at the tile's
/// position, and if the solution holds it all the same, another tile of the
/// row reports it present or correct.
pub open spec fn truthful_tile(row: Seq<TileFeedback>, solution: Word, i: int) -> bool {
    let letter = row[i].letter;
    match row[i].state {
        LetterState::Correct => solution@[i] == letter,
        LetterState::Present => solution@.contains(letter) && solution@[i] != letter,
        LetterState::Absent => {
            &&& solution@[i] != letter
            &&& solution@.contains(letter) ==> exists|j: int|
                0 <= j < 5 && (#[trigger] row[j]).letter == letter && row[j].state
                    != LetterState::Absent
        },
    }
}

/// Every tile of a row says nothing false of `solution`.
pub open spec fn truthful(row: Seq<TileFeedback>, solution: Word) -> bool {
    forall|i: int| 0 <= i < 5 ==> truthful_tile(row, solution, i)
}

/// What holds of the knowledge between two tiles of a truthful row, `n`
/// tiles in: it fits the solution, but that a letter of the solution may
/// be ruled out for the moment, until a later tile of the row places it.
spec fn on_track(knowledge: Knowledge, row: Seq<TileFeedback>, solution: Word, n: int) -> bool {
    &&& knowledge.correct_by_position.len() == 5
    &&& forall|i: int|
        0 <= i < 5 ==> (#[trigger] knowledge.correct_by_position[i] matches Some(l)
            ==> solution@[i] == l)
    &&& forall|l: Letter| #[trigger]
        knowledge.present_letters.dom().contains(l) ==> {
            &&& solution@.contains(l)
            &&& forall|p: int|
                0 <= p < 5 && knowledge.present_letters[l].contains(p) ==> #[trigger] solution@[p]
                    != l
        }
    &&& forall|l: Letter| #[trigger]
        knowledge.excludes(l) && solution@.contains(l) ==> exists|j: int|
            n <= j < 5 && (#[trigger] row[j]).letter == l && row[j].state != LetterState::Absent
    &&& forall|j: int|
        0 <= j < n && (#[trigger] row[j]).state != LetterState::Absent ==> knowledge.places(
            row[j].letter,
        )
}

/// Merging the next tile of a truthful row does not conflict and keeps the
/// knowledge on track.
proof fn lemma_tile_keeps_on_track(
    knowledge: Knowledge,
    row: Seq<TileFeedback>,
    solution: Word,
    n: int,
)
    requires
        0 <= n < 5,
        truthful(row, solution),
        on_track(knowledge, row, solution, n),
    ensures
        !knowledge.conflicts(n, row[n].letter, row[n].state),
        on_track(knowledge.record(n, row[n].letter, row[n].state), row, solution, n + 1),
{
    let letter = row[n].letter;
    let state = row[n].state;
    let after = knowledge.record(n, letter, state);
    assert(truthful_tile(row, solution, n));
    assert(solution@.len() == 5);

    // What is pinned stays pinned, and what is present stays present.
    assert forall|l: Letter| knowledge.places(l) implies after.places(l) by {
        if knowledge.pins(l) {
            let p: int = choose|p: int|
                0 <= p < knowledge.correct_by_position.len()
                    && #[trigger] knowledge.correct_by_position[p] == Some(l);
            assert(after.correct_by_position[p] == Some(l));
        }
    }
    // The tile's own letter is placed unless the tile reports it absent.
    if state == LetterState::Correct {
        assert(after.correct_by_position[n] == Some(letter));
        assert(after.pins(letter));
    }
    assert(state != LetterState::Absent ==> after.places(letter));

    assert forall|j: int| 0 <= j < n + 1 && (#[trigger] row[j]).state
        != LetterState::Absent implies after.places(row[j].letter) by {
        if j < n {
            assert(knowledge.places(row[j].letter));
        }
    }

    assert forall|l: Letter| #[trigger] after.present_letters.dom().contains(l) implies {
        &&& solution@.contains(l)
        &&& forall|p: int|
            0 <= p < 5 && after.present_letters[l].contains(p) ==> #[trigger] solution@[p] != l
    } by {
        if l == letter && !knowledge.present_letters.dom().contains(l) {
            // The letter joins the present ones on this tile.
            if state == LetterState::Absent {
                assert(knowledge.pins(l));
                let p: int = choose|p: int|
                    0 <= p < knowledge.correct_by_position.len()
                        && #[trigger] knowledge.correct_by_position[p] == Some(l);
                assert(solution@[p] == l);
            }
        } else {
            assert(knowledge.present_letters.dom().contains(l));
        }
    }

    assert forall|l: Letter| #[trigger] after.excludes(l) && solution@.contains(l) implies exists|
        j: int,
    |
        n + 1 <= j < 5 && (#[trigger] row[j]).letter == l && row[j].state
            != LetterState::Absent by {
        if knowledge.excludes(l) {
            let j: int = choose|j: int|
                n <= j < 5 && (#[trigger] row[j]).letter == l && row[j].state
                    != LetterState::Absent;
            // The witness is not this tile: it would have placed the letter.
            assert(j != n);
        } else {
            // The letter is ruled out on this very tile.
            assert(l == letter && state == LetterState::Absent);
            let j: int = choose|j: int|
                0 <= j < 5 && (#[trigger] row[j]).letter == l && row[j].state
                    != LetterState::Absent;
            if j < n {
                assert(knowledge.places(row[j].letter));
            }
        }
    }
}

/// Merging the first `n` tiles of a truthful row does not conflict and
/// keeps the knowledge on track.
proof fn lemma_row_keeps_on_track(
    knowledge: Knowledge,
    row: Seq<TileFeedback>,
    solution: Word,
    n: nat,
)
    requires
        n <= 5,
        truthful(row, solution),
        on_track(knowledge, row, solution, 0),
    ensures
        !row_conflicts(knowledge, row, n),
        on_track(record_row(knowledge, row, n), row, solution, n as int),
    decreases n,
{
    if n > 0 {
        lemma_row_keeps_on_track(knowledge, row, solution, (n - 1) as nat);
        lemma_tile_keeps_on_track(
            record_row(knowledge, row, (n - 1) as nat),
            row,
            solution,
            n - 1,
        );
    }
}

/// A row that is true of the solution is merged without conflict, and the
/// knowledge that admitted the solution before still admits it after.
pub proof fn lemma_truthful_row_keeps_the_solution(
    knowledge: Knowledge,
    row: Seq<TileFeedback>,
    solution: Word,
)
    requires
        knowledge.correct_by_position.len() == 5,
        knowledge.admits(solution),
        truthful(row, solution),
    ensures
        !row_conflicts(knowledge, row, 5),
        record_row(knowledge, row, 5).admits(solution),
{
    assert(on_track(knowledge, row, solution, 0));
    lemma_row_keeps_on_track(knowledge, row, solution, 5);
}

/// A session that still has the solution among its candidates keeps it
/// there through a row that is true of the solution; the row is not
/// refused, and the session does not end in a contradiction.
pub proof fn lemma_truthful_round_keeps_the_solution(
    session: Session,
    row: Seq<TileFeedback>,
    solution: Word,
)
    requires
        session.active(),
        session.knowledge.correct_by_position.len() == 5,
        session.knowledge.admits(solution),
        session.candidates.contains(solution),
        truthful(row, solution),
    ensures
        session.outcome(row) is Ok,
        session.outcome(row) != Ok::<RoundOutcome, SolverError>(RoundOutcome::Contradiction),
        session.after(row).knowledge.admits(solution),
        session.after(row).candidates.contains(solution),
{
    lemma_truthful_row_keeps_the_solution(session.knowledge, row, solution);
    let knowledge = record_row(session.knowledge, row, 5);
    let i: int = choose|i: int|
        0 <= i < session.candidates.len() && session.candidates[i] == solution;
    session.candidates.lemma_filter_contains(|word: Word| knowledge.admits(word), i);
    assert(survivors(session.candidates, knowledge).contains(solution));
}

} // verus!
