//! Classification responses: scores paired with their labels, highest
//! score first.

use crate::metadata::{batch_summary, single_summary, sum_of, token_column, CallOutcome, ResponseMetadata};
use crate::score::{comparable, descending_order_of, rank_scores, score_keys};
use vstd::prelude::*;

verus! {

/// One class of a classification: its score and its label.
#[derive(Debug, Clone, PartialEq, Eq)]
pub struct Prediction {
    /// The score, as the bits of a single-precision number.
    pub score: u32,
    pub label: String,
}

/// The response to a classification request: the predictions of the one
/// sequence, or those of each sequence of the batch in input order.
#[derive(Debug, Clone, PartialEq, Eq)]
pub enum PredictResponse {
    Single(Vec<Prediction>),
    Batch(Vec<Vec<Prediction>>),
}

/// A model with these labels can label these scores: there is a label for
/// every class scored, and the scores can be put in order.
pub open spec fn can_label(scores: Seq<u32>, labels: Seq<String>) -> bool {
    scores.len() <= labels.len() && comparable(scores)
}

/// `predictions` lists the classes in the given order, each with its score
/// and its label.
pub open spec fn lists_classes(
    predictions: Seq<Prediction>,
    scores: Seq<u32>,
    labels: Seq<String>,
    order: Seq<int>,
) -> bool {
    &&& predictions.len() == order.len()
    &&& forall|k: int|
        0 <= k < order.len() ==> (#[trigger] predictions[k]).score == scores[order[k]]
            && predictions[k].label@ == labels[order[k]]@
}

/// `predictions` are the classes scored, each with its label, from the
/// highest score to the lowest.
pub open spec fn is_ranking(predictions: Seq<Prediction>, scores: Seq<u32>, labels: Seq<String>) -> bool {
    lists_classes(predictions, scores, labels, descending_order_of(score_keys(scores)))
}

/// Every item of a batch can be labelled.
pub open spec fn can_label_all(outcomes: Seq<CallOutcome<Vec<u32>>>, labels: Seq<String>) -> bool {
    forall|i: int| 0 <= i < outcomes.len() ==> can_label((#[trigger] outcomes[i]).payload@, labels)
}

/// Pairs each score with the label of its class and lists the pairs from
/// the highest score to the lowest.
pub fn predictions_of(scores: &Vec<u32>, id2label: &Vec<String>) -> (predictions: Vec<Prediction>)
    requires
        can_label(scores@, id2label@),
    ensures
        is_ranking(predictions@, scores@, id2label@),
{
    let order = rank_scores(scores);
    let ghost wanted = descending_order_of(score_keys(scores@));
    let mut predictions: Vec<Prediction> = Vec::new();
    let mut k: usize = 0;
    while k < order.len()
        invariant
            0 <= k <= order@.len(),
            order@.len() == scores@.len(),
            scores@.len() <= id2label@.len(),
            forall|j: int| 0 <= j < order@.len() ==> #[trigger] order@[j] < scores@.len(),
            predictions@.len() == k,
            forall|j: int|
                0 <= j < k ==> (#[trigger] predictions@[j]).score == scores@[order@[j] as int]
                    && predictions@[j].label@ == id2label@[order@[j] as int]@,
        decreases order@.len() - k,
    {
        let class = order[k];
        predictions.push(Prediction { score: scores[class], label: id2label[class].clone() });
        k += 1;
    }
    assert(lists_classes(predictions@, scores@, id2label@, wanted)) by {
        assert forall|j: int| 0 <= j < wanted.len() implies (#[trigger] predictions@[j]).score
            == scores@[wanted[j]] && predictions@[j].label@ == id2label@[wanted[j]]@ by {
            assert(wanted[j] == order@[j] as int);
        }
    }
    predictions
}

/// The response to a single classification request, with its summary.
pub fn predict_single(
    outcome: &CallOutcome<Vec<u32>>,
    id2label: &Vec<String>,
    compute_chars: usize,
    start_time: u64,
    now: u64,
) -> (r: (PredictResponse, ResponseMetadata))
    requires
        can_label(outcome.payload@, id2label@),
    ensures
        r.0 matches PredictResponse::Single(predictions) && is_ranking(
            predictions@,
            outcome.payload@,
            id2label@,
        ),
        r.1 == single_summary(*outcome, compute_chars, start_time, now),
{
    let predictions = predictions_of(&outcome.payload, id2label);
    let metadata = ResponseMetadata::of_single(outcome, compute_chars, start_time, now);
    (PredictResponse::Single(predictions), metadata)
}

/// The response to a batch of classification requests, with its summary:
/// the predictions of each item at the item's own position.
pub fn predict_batch(
    outcomes: &Vec<CallOutcome<Vec<u32>>>,
    id2label: &Vec<String>,
    compute_chars: usize,
    start_time: u64,
    now: u64,
) -> (r: (PredictResponse, ResponseMetadata))
    requires
        outcomes@.len() > 0,
        sum_of(token_column(outcomes@)) <= usize::MAX,
        can_label_all(outcomes@, id2label@),
    ensures
        r.0 matches PredictResponse::Batch(lists) && lists@.len() == outcomes@.len() && forall|
            i: int,
        |
            0 <= i < lists@.len() ==> is_ranking(
                (#[trigger] lists@[i])@,
                outcomes@[i].payload@,
                id2label@,
            ),
        r.1 == batch_summary(outcomes@, compute_chars, start_time, now),
{
    let mut lists: Vec<Vec<Prediction>> = Vec::new();
    let mut i: usize = 0;
    while i < outcomes.len()
        invariant
            0 <= i <= outcomes@.len(),
            can_label_all(outcomes@, id2label@),
            lists@.len() == i,
            forall|j: int|
                0 <= j < i ==> is_ranking(
                    (#[trigger] lists@[j])@,
                    outcomes@[j].payload@,
                    id2label@,
                ),
        decreases outcomes@.len() - i,
    {
        assert(can_label(outcomes@[i as int].payload@, id2label@));
        lists.push(predictions_of(&outcomes[i].payload, id2label));
        i += 1;
    }
    let metadata = ResponseMetadata::of_batch(outcomes, compute_chars, start_time, now);
    (PredictResponse::Batch(lists), metadata)
}

/// Whether a model with these labels can label every item of a batch.
pub fn check_labelling(outcomes: &Vec<CallOutcome<Vec<u32>>>, id2label: &Vec<String>) -> (ok: bool)
    ensures
        ok == can_label_all(outcomes@, id2label@),
{
    let mut i: usize = 0;
    while i < outcomes.len()
        invariant
            0 <= i <= outcomes@.len(),
            forall|j: int|
                0 <= j < i ==> can_label((#[trigger] outcomes@[j]).payload@, id2label@),
        decreases outcomes@.len() - i,
    {
        let scores = &outcomes[i].payload;
        if scores.len() > id2label.len() || !crate::score::can_compare(scores) {
            return false;
        }
        i += 1;
    }
    true
}

} // verus!
