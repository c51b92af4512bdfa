//! Building the interactive prompt for one question: the question text and
//! one answer button per option.
//!
//! The buttons may be displayed in a random order (see
//! [`crate::sampling::display_order`]), but every button's payload encodes
//! the answer's original index in the question, so the click-to-answer
//! mapping is independent of the display order.

use crate::codec::{answer_custom_id, answer_id_spec, route_spec, ComponentRoute};
use crate::codec::lemma_answer_id_round_trip;
use crate::question::{question_wf, Question};
use crate::sampling::{display_order, distinct_indices_below, identity_seq};
use vstd::prelude::*;

verus! {

/// One answer button: the payload sent back when it is clicked, and the
/// answer text shown on it.
pub struct AnswerButton {
    pub custom_id: Vec<u8>,
    pub label: String,
}

/// An ephemeral question prompt: the question text and one button per
/// answer option.
pub struct QuestionPrompt {
    pub text: String,
    pub buttons: Vec<AnswerButton>,
}

/// The button at a display position shows original answer `j` of `q`: its
/// payload encodes `j` and its label is that answer's text.
pub open spec fn button_shows(b: AnswerButton, q: Question, j: int) -> bool {
    &&& b.custom_id@ == answer_id_spec(j)
    &&& b.label@ == q.answers@[j]@
}

/// The prompt's buttons show the answers of `q` in display order `ord`:
/// one button per answer, each showing the original answer its position was
/// assigned, with no answer shown twice.
pub open spec fn prompt_order_matches(p: QuestionPrompt, q: Question, ord: Seq<usize>) -> bool {
    &&& ord.len() == q.answers@.len()
    &&& distinct_indices_below(ord, q.answers@.len() as int)
    &&& forall|k: int| 0 <= k < ord.len() ==> button_shows(p.buttons@[k], q, #[trigger] ord[k] as int)
}

/// A prompt presents question `q`: its text is the question's text, and its
/// buttons show every answer exactly once, in some order — the original
/// order unless the question has exactly four answers.
pub open spec fn prompt_matches(p: QuestionPrompt, q: Question) -> bool {
    &&& p.text@ == q.question@
    &&& p.buttons@.len() == q.answers@.len()
    &&& exists|ord: Seq<usize>| prompt_order_matches(p, q, ord)
    &&& q.answers@.len() != 4 ==> forall|k: int|
        0 <= k < q.answers@.len() ==> button_shows(#[trigger] p.buttons@[k], q, k)
}

/// Builds the prompt for one question, with the answers in a fresh display
/// order.
pub fn build_prompt(q: &Question) -> (p: QuestionPrompt)
    requires
        question_wf(*q),
    ensures
        prompt_matches(p, *q),
{
    let ord = display_order(q.answers.len());
    let mut buttons: Vec<AnswerButton> = Vec::new();
    let mut k: usize = 0;
    while k < ord.len()
        invariant
            k <= ord@.len(),
            ord@.len() == q.answers@.len(),
            distinct_indices_below(ord@, q.answers@.len() as int),
            question_wf(*q),
            buttons@.len() == k,
            forall|t: int| 0 <= t < k ==> button_shows(buttons@[t], *q, #[trigger] ord@[t] as int),
        decreases ord@.len() - k,
    {
        let j = ord[k];
        let button = AnswerButton { custom_id: answer_custom_id(j), label: q.answers[j].clone() };
        buttons.push(button);
        k += 1;
    }
    let p = QuestionPrompt { text: q.question.clone(), buttons };
    proof {
        assert(prompt_order_matches(p, *q, ord@));
        if q.answers@.len() != 4 {
            assert forall|t: int| 0 <= t < q.answers@.len() implies button_shows(
                #[trigger] p.buttons@[t],
                *q,
                t,
            ) by {
                assert(ord@ == identity_seq(q.answers@.len() as int));
                assert(ord@[t] == t as usize);
            }
        }
    }
    p
}

/// Clicking any button of a well-formed prompt submits the original index of
/// the answer shown on that button: the payload routes back to an answer
/// index `j` below the question's answer count, and the button's label is
/// answer `j`. Shuffling the display order therefore never changes which
/// answer a click is compared against.
pub proof fn lemma_prompt_click_is_original_index(p: QuestionPrompt, q: Question, k: int) -> (j:
    int)
    requires
        question_wf(q),
        prompt_matches(p, q),
        0 <= k < p.buttons@.len(),
    ensures
        0 <= j < q.answers@.len(),
        route_spec(p.buttons@[k].custom_id@) == (ComponentRoute::Answer { index: j as usize }),
        p.buttons@[k].label@ == q.answers@[j]@,
{
    let ord = choose|ord: Seq<usize>| prompt_order_matches(p, q, ord);
    let j = ord[k] as int;
    lemma_answer_id_round_trip(j);
    j
}

} // verus!
