//! Rerank responses: each text's score with the text's position in the
//! request, highest score first.

use crate::metadata::{batch_summary, sum_of, token_column, CallOutcome, ResponseMetadata};
use crate::score::{can_compare, comparable, descending_order_of, rank_scores, score_keys};
use crate::types::{Sequence, SequenceView};
use vstd::prelude::*;

verus! {

/// The score of one text of a rerank request.
#[derive(Debug, Clone, PartialEq, Eq)]
pub struct Rank {
    /// The position of the text in the request.
    pub index: usize,
    /// The text itself, where the request asked for it.
    pub text: Option<String>,
    /// The score, as the bits of a single-precision number.
    pub score: u32,
}

/// Every item of the batch came back with a score.
pub open spec fn all_scored(outcomes: Seq<CallOutcome<Vec<u32>>>) -> bool {
    forall|i: int| 0 <= i < outcomes.len() ==> (#[trigger] outcomes[i]).payload@.len() > 0
}

/// The score of each item: the first that its call returned.
pub open spec fn first_scores(outcomes: Seq<CallOutcome<Vec<u32>>>) -> Seq<u32> {
    Seq::new(outcomes.len(), |i: int| outcomes[i].payload@[0])
}

/// The outcomes of a rerank request can be ranked: there is one for every
/// text, each holds a score, and the scores can be put in order.
pub open spec fn can_rank(outcomes: Seq<CallOutcome<Vec<u32>>>, texts: Seq<String>) -> bool {
    &&& outcomes.len() == texts.len()
    &&& all_scored(outcomes)
    &&& comparable(first_scores(outcomes))
}

/// `ranks` lists the texts from the highest score to the lowest, each with
/// its position in the request, its score and, if asked for, the text.
pub open spec fn is_rank_list(
    ranks: Seq<Rank>,
    outcomes: Seq<CallOutcome<Vec<u32>>>,
    texts: Seq<String>,
    return_text: bool,
) -> bool {
    let scores = first_scores(outcomes);
    let order = descending_order_of(score_keys(scores));
    &&& ranks.len() == outcomes.len()
    &&& forall|k: int|
        0 <= k < ranks.len() ==> {
            &&& (#[trigger] ranks[k]).index == order[k]
            &&& ranks[k].score == scores[order[k]]
            &&& return_text ==> ranks[k].text is Some && ranks[k].text->Some_0@ == texts[order[k]]@
            &&& !return_text ==> ranks[k].text is None
        }
}

/// What a rerank request submits for inference: the query paired with each
/// text, in the order of the texts.
pub open spec fn is_pairing(pairs: Seq<Sequence>, query: Seq<char>, texts: Seq<String>) -> bool {
    &&& pairs.len() == texts.len()
    &&& forall|i: int|
        0 <= i < pairs.len() ==> (#[trigger] pairs[i])@ == SequenceView::Pair(query, texts[i]@)
}

/// The items of a rerank request: the query paired with each text.
pub fn rerank_inputs(query: &String, texts: &Vec<String>) -> (pairs: Vec<Sequence>)
    ensures
        is_pairing(pairs@, query@, texts@),
{
    let mut pairs: Vec<Sequence> = Vec::new();
    let mut i: usize = 0;
    while i < texts.len()
        invariant
            0 <= i <= texts@.len(),
            pairs@.len() == i,
            forall|j: int|
                0 <= j < i ==> (#[trigger] pairs@[j])@ == SequenceView::Pair(query@, texts@[j]@),
        decreases texts@.len() - i,
    {
        pairs.push(Sequence::Pair(query.clone(), texts[i].clone()));
        i += 1;
    }
    pairs
}

/// Whether the outcomes of a rerank request can be ranked.
pub fn check_ranking(outcomes: &Vec<CallOutcome<Vec<u32>>>, texts: &Vec<String>) -> (ok: bool)
    ensures
        ok == can_rank(outcomes@, texts@),
{
    if outcomes.len() != texts.len() {
        return false;
    }
    let mut scores: Vec<u32> = Vec::new();
    let mut i: usize = 0;
    while i < outcomes.len()
        invariant
            0 <= i <= outcomes@.len(),
            outcomes@.len() == texts@.len(),
            scores@.len() == i,
            forall|j: int| 0 <= j < i ==> (#[trigger] outcomes@[j]).payload@.len() > 0,
            forall|j: int| 0 <= j < i ==> #[trigger] scores@[j] == outcomes@[j].payload@[0],
        decreases outcomes@.len() - i,
    {
        if outcomes[i].payload.len() == 0 {
            return false;
        }
        scores.push(outcomes[i].payload[0]);
        i += 1;
    }
    assert(scores@ =~= first_scores(outcomes@));
    can_compare(&scores)
}

/// The response to a rerank request, with its summary.
pub fn rerank_response(
    outcomes: &Vec<CallOutcome<Vec<u32>>>,
    texts: &Vec<String>,
    return_text: bool,
    compute_chars: usize,
    start_time: u64,
    now: u64,
) -> (r: (Vec<Rank>, ResponseMetadata))
    requires
        outcomes@.len() > 0,
        sum_of(token_column(outcomes@)) <= usize::MAX,
        can_rank(outcomes@, texts@),
    ensures
        is_rank_list(r.0@, outcomes@, texts@, return_text),
        r.1 == batch_summary(outcomes@, compute_chars, start_time, now),
{
    let mut scores: Vec<u32> = Vec::new();
    let mut i: usize = 0;
    while i < outcomes.len()
        invariant
            0 <= i <= outcomes@.len(),
            all_scored(outcomes@),
            scores@.len() == i,
            forall|j: int| 0 <= j < i ==> #[trigger] scores@[j] == outcomes@[j].payload@[0],
        decreases outcomes@.len() - i,
    {
        assert(outcomes@[i as int].payload@.len() > 0);
        scores.push(outcomes[i].payload[0]);
        i += 1;
    }
    assert(scores@ =~= first_scores(outcomes@));
    let order = rank_scores(&scores);
    let ghost wanted = descending_order_of(score_keys(scores@));
    let mut ranks: Vec<Rank> = Vec::new();
    let mut k: usize = 0;
    while k < order.len()
        invariant
            0 <= k <= order@.len(),
            order@.len() == scores@.len(),
            scores@.len() == texts@.len(),
            forall|j: int| 0 <= j < order@.len() ==> #[trigger] order@[j] < scores@.len(),
            ranks@.len() == k,
            forall|j: int|
                0 <= j < k ==> {
                    &&& (#[trigger] ranks@[j]).index == order@[j]
                    &&& ranks@[j].score == scores@[order@[j] as int]
                    &&& return_text ==> ranks@[j].text is Some && ranks@[j].text->Some_0@
                        == texts@[order@[j] as int]@
                    &&& !return_text ==> ranks@[j].text is None
                },
        decreases order@.len() - k,
    {
        let index = order[k];
        let text = if return_text {
            Some(texts[index].clone())
        } else {
            None
        };
        ranks.push(Rank { index, text, score: scores[index] });
        k += 1;
    }
    assert(is_rank_list(ranks@, outcomes@, texts@, return_text)) by {
        assert forall|j: int| 0 <= j < ranks@.len() implies {
            &&& (#[trigger] ranks@[j]).index == wanted[j]
            &&& ranks@[j].score == scores@[wanted[j]]
            &&& return_text ==> ranks@[j].text is Some && ranks@[j].text->Some_0@
                == texts@[wanted[j]]@
            &&& !return_text ==> ranks@[j].text is None
        } by {
            assert(wanted[j] == order@[j] as int);
        }
    }
    let metadata = ResponseMetadata::of_batch(outcomes, compute_chars, start_time, now);
    (ranks, metadata)
}

} // verus!
