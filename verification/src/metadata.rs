//! Timing and size summaries: what each call reports, and what a response
//! reports of all its calls.
//!
//! Durations are whole nanoseconds. A single call is reported as it was
//! measured. A batch reports, for each duration, the mean over its items,
//! with the remainder of the division dropped, and the sum of its items'
//! token counts.

use crate::types::fitting;
use vstd::prelude::*;

verus! {

/// What one completed inference call hands back.
#[derive(Debug, Clone, PartialEq, Eq)]
pub struct CallOutcome<P> {
    /// The result of the call: scores or an embedding.
    pub payload: P,
    /// The number of tokens the input was encoded to.
    pub prompt_tokens: usize,
    /// Time spent tokenizing, in nanoseconds.
    pub tokenization: u64,
    /// Time spent waiting in the engine's queue, in nanoseconds.
    pub queue: u64,
    /// Time spent in the model, in nanoseconds.
    pub inference: u64,
}

/// The summary of one response.
#[derive(Debug, Clone, Copy, PartialEq, Eq, Structural)]
pub struct ResponseMetadata {
    /// Characters submitted, summed over all items.
    pub compute_chars: usize,
    /// Tokens computed, summed over all items.
    pub compute_tokens: usize,
    /// The clock at request entry, in nanoseconds.
    pub start_time: u64,
    /// Time from request entry until all outcomes were collected, in
    /// nanoseconds.
    pub total_time: u64,
    /// Tokenization time in nanoseconds: of the call, or the mean of a batch.
    pub tokenization: u64,
    /// Queue time in nanoseconds: of the call, or the mean of a batch.
    pub queue: u64,
    /// Inference time in nanoseconds: of the call, or the mean of a batch.
    pub inference: u64,
}

/// The values that the response headers carry, durations in whole
/// milliseconds.
#[derive(Debug, Clone, Copy, PartialEq, Eq, Structural)]
pub struct HeaderValues {
    pub compute_time: u64,
    pub compute_characters: usize,
    pub compute_tokens: usize,
    pub total_time: u64,
    pub tokenization_time: u64,
    pub queue_time: u64,
    pub inference_time: u64,
}

/// The sum of a list of numbers.
pub open spec fn sum_of(values: Seq<nat>) -> nat
    decreases values.len(),
{
    if values.len() == 0 {
        0
    } else {
        sum_of(values.drop_last()) + values.last()
    }
}

/// The mean of a list of numbers, the remainder dropped.
pub open spec fn mean_of(values: Seq<nat>) -> nat
    recommends
        values.len() > 0,
{
    sum_of(values) / values.len()
}

/// Time from `start` to `now` on a clock that never runs backwards; zero
/// where `now` is the earlier.
pub open spec fn elapsed_between(start: u64, now: u64) -> u64 {
    if now >= start {
        (now - start) as u64
    } else {
        0
    }
}

/// Whole milliseconds in a number of nanoseconds.
pub open spec fn millis_of(nanos: u64) -> u64 {
    nanos / 1_000_000
}

/// The token counts of a list of outcomes, in order.
pub open spec fn token_column<P>(outcomes: Seq<CallOutcome<P>>) -> Seq<nat> {
    Seq::new(outcomes.len(), |i: int| outcomes[i].prompt_tokens as nat)
}

/// The tokenization times of a list of outcomes, in order.
pub open spec fn tokenization_column<P>(outcomes: Seq<CallOutcome<P>>) -> Seq<nat> {
    Seq::new(outcomes.len(), |i: int| outcomes[i].tokenization as nat)
}

/// The queue times of a list of outcomes, in order.
pub open spec fn queue_column<P>(outcomes: Seq<CallOutcome<P>>) -> Seq<nat> {
    Seq::new(outcomes.len(), |i: int| outcomes[i].queue as nat)
}

/// The inference times of a list of outcomes, in order.
pub open spec fn inference_column<P>(outcomes: Seq<CallOutcome<P>>) -> Seq<nat> {
    Seq::new(outcomes.len(), |i: int| outcomes[i].inference as nat)
}

/// The summary of a single call: its own measurements.
pub open spec fn single_summary<P>(
    outcome: CallOutcome<P>,
    compute_chars: usize,
    start_time: u64,
    now: u64,
) -> ResponseMetadata {
    ResponseMetadata {
        compute_chars,
        compute_tokens: outcome.prompt_tokens,
        start_time,
        total_time: elapsed_between(start_time, now),
        tokenization: outcome.tokenization,
        queue: outcome.queue,
        inference: outcome.inference,
    }
}

/// The summary of a batch: token counts summed, durations averaged.
pub open spec fn batch_summary<P>(
    outcomes: Seq<CallOutcome<P>>,
    compute_chars: usize,
    start_time: u64,
    now: u64,
) -> ResponseMetadata
    recommends
        outcomes.len() > 0,
        sum_of(token_column(outcomes)) <= usize::MAX,
{
    ResponseMetadata {
        compute_chars,
        compute_tokens: sum_of(token_column(outcomes)) as usize,
        start_time,
        total_time: elapsed_between(start_time, now),
        tokenization: mean_of(tokenization_column(outcomes)) as u64,
        queue: mean_of(queue_column(outcomes)) as u64,
        inference: mean_of(inference_column(outcomes)) as u64,
    }
}

/// Adding a number to a list adds it to the sum.
pub proof fn lemma_sum_of_push(values: Seq<nat>, value: nat)
    ensures
        sum_of(values.push(value)) == sum_of(values) + value,
{
    assert(values.push(value).drop_last() =~= values);
}

/// The sum of a list is at most its length times a bound on its numbers.
pub proof fn lemma_sum_of_bound(values: Seq<nat>, bound: nat)
    requires
        forall|i: int| 0 <= i < values.len() ==> values[i] <= bound,
    ensures
        sum_of(values) <= values.len() * bound,
    decreases values.len(),
{
    if values.len() > 0 {
        lemma_sum_of_bound(values.drop_last(), bound);
        assert(values.drop_last().len() * bound + bound == values.len() * bound)
            by (nonlinear_arith)
            requires
                values.drop_last().len() + 1 == values.len(),
        ;
    }
}

/// The mean of a list lies within any bound on its numbers: averaging
/// durations never leaves the range of a duration.
pub proof fn lemma_mean_of_bound(values: Seq<nat>, bound: nat)
    requires
        values.len() > 0,
        forall|i: int| 0 <= i < values.len() ==> values[i] <= bound,
    ensures
        mean_of(values) <= bound,
{
    lemma_sum_of_bound(values, bound);
    let n = values.len();
    let total = sum_of(values);
    assert(total / n <= bound) by (nonlinear_arith)
        requires
            n > 0,
            total <= n * bound,
    ;
}

/// The sum of a list is at least the sum of any of its prefixes.
pub proof fn lemma_sum_of_prefix(values: Seq<nat>, count: int)
    requires
        0 <= count <= values.len(),
    ensures
        sum_of(values.take(count)) <= sum_of(values),
    decreases values.len() - count,
{
    if count == values.len() {
        assert(values.take(count) =~= values);
    } else {
        assert(values.take(count + 1) =~= values.take(count).push(values[count]));
        lemma_sum_of_push(values.take(count), values[count]);
        lemma_sum_of_prefix(values, count + 1);
    }
}

/// The tokens computed for a batch, or `None` where their number does not
/// fit in a `usize`.
pub fn total_tokens<P>(outcomes: &Vec<CallOutcome<P>>) -> (total: Option<usize>)
    ensures
        total == fitting(sum_of(token_column(outcomes@))),
{
    let ghost tokens = token_column(outcomes@);
    let mut total: usize = 0;
    let mut i: usize = 0;
    assert(tokens.take(0) =~= Seq::<nat>::empty());
    while i < outcomes.len()
        invariant
            0 <= i <= outcomes@.len(),
            tokens == token_column(outcomes@),
            total == sum_of(tokens.take(i as int)),
        decreases outcomes@.len() - i,
    {
        proof {
            assert(tokens.take(i + 1) =~= tokens.take(i as int).push(tokens[i as int]));
            lemma_sum_of_push(tokens.take(i as int), tokens[i as int]);
            lemma_sum_of_prefix(tokens, i + 1);
        }
        match total.checked_add(outcomes[i].prompt_tokens) {
            Some(sum) => {
                total = sum;
            },
            None => {
                return None;
            },
        }
        i += 1;
    }
    assert(tokens.take(i as int) =~= tokens);
    Some(total)
}

/// Time from `start` to `now`; zero where the clock went backwards.
pub fn elapsed(start: u64, now: u64) -> (total: u64)
    ensures
        total == elapsed_between(start, now),
{
    if now >= start {
        now - start
    } else {
        0
    }
}

/// Whole milliseconds in a number of nanoseconds.
pub fn as_millis(nanos: u64) -> (millis: u64)
    ensures
        millis == millis_of(nanos),
{
    nanos / 1_000_000
}

impl ResponseMetadata {
    /// The summary of a response, made once all outcomes are collected.
    /// `start_time` and `now` are readings of one monotonic clock, in
    /// nanoseconds.
    pub fn new(
        compute_chars: usize,
        compute_tokens: usize,
        start_time: u64,
        now: u64,
        tokenization: u64,
        queue: u64,
        inference: u64,
    ) -> (metadata: Self)
        ensures
            metadata == (ResponseMetadata {
                compute_chars,
                compute_tokens,
                start_time,
                total_time: elapsed_between(start_time, now),
                tokenization,
                queue,
                inference,
            }),
    {
        ResponseMetadata {
            compute_chars,
            compute_tokens,
            start_time,
            total_time: elapsed(start_time, now),
            tokenization,
            queue,
            inference,
        }
    }

    /// The summary of a single call.
    pub fn of_single<P>(
        outcome: &CallOutcome<P>,
        compute_chars: usize,
        start_time: u64,
        now: u64,
    ) -> (metadata: Self)
        ensures
            metadata == single_summary(*outcome, compute_chars, start_time, now),
    {
        ResponseMetadata::new(
            compute_chars,
            outcome.prompt_tokens,
            start_time,
            now,
            outcome.tokenization,
            outcome.queue,
            outcome.inference,
        )
    }

    /// The summary of a batch of calls.
    pub fn of_batch<P>(
        outcomes: &Vec<CallOutcome<P>>,
        compute_chars: usize,
        start_time: u64,
        now: u64,
    ) -> (metadata: Self)
        requires
            outcomes@.len() > 0,
            sum_of(token_column(outcomes@)) <= usize::MAX,
        ensures
            metadata == batch_summary(outcomes@, compute_chars, start_time, now),
    {
        let ghost tokens = token_column(outcomes@);
        let ghost tokenizations = tokenization_column(outcomes@);
        let ghost queues = queue_column(outcomes@);
        let ghost inferences = inference_column(outcomes@);
        let count = outcomes.len();
        let mut total_tokens: u128 = 0;
        let mut total_tokenization: u128 = 0;
        let mut total_queue: u128 = 0;
        let mut total_inference: u128 = 0;
        let mut i: usize = 0;
        proof {
            assert(tokens.take(0) =~= Seq::<nat>::empty());
            assert(tokenizations.take(0) =~= Seq::<nat>::empty());
            assert(queues.take(0) =~= Seq::<nat>::empty());
            assert(inferences.take(0) =~= Seq::<nat>::empty());
        }
        while i < count
            invariant
                0 <= i <= count,
                count == outcomes@.len(),
                tokens == token_column(outcomes@),
                tokenizations == tokenization_column(outcomes@),
                queues == queue_column(outcomes@),
                inferences == inference_column(outcomes@),
                total_tokens == sum_of(tokens.take(i as int)),
                total_tokenization == sum_of(tokenizations.take(i as int)),
                total_queue == sum_of(queues.take(i as int)),
                total_inference == sum_of(inferences.take(i as int)),
            decreases count - i,
        {
            proof {
                let next = i + 1;
                assert(tokens.take(next) =~= tokens.take(i as int).push(tokens[i as int]));
                assert(tokenizations.take(next) =~= tokenizations.take(i as int).push(
                    tokenizations[i as int],
                ));
                assert(queues.take(next) =~= queues.take(i as int).push(queues[i as int]));
                assert(inferences.take(next) =~= inferences.take(i as int).push(
                    inferences[i as int],
                ));
                lemma_sum_of_push(tokens.take(i as int), tokens[i as int]);
                lemma_sum_of_push(tokenizations.take(i as int), tokenizations[i as int]);
                lemma_sum_of_push(queues.take(i as int), queues[i as int]);
                lemma_sum_of_push(inferences.take(i as int), inferences[i as int]);
                lemma_sum_of_bound(tokens.take(next), usize::MAX as nat);
                lemma_sum_of_bound(tokenizations.take(next), u64::MAX as nat);
                lemma_sum_of_bound(queues.take(next), u64::MAX as nat);
                lemma_sum_of_bound(inferences.take(next), u64::MAX as nat);
                assert(next * (u64::MAX as nat) <= u128::MAX) by (nonlinear_arith)
                    requires
                        0 <= next <= u64::MAX,
                ;
                assert(next * (usize::MAX as nat) <= u128::MAX) by (nonlinear_arith)
                    requires
                        0 <= next <= u64::MAX,
                        usize::MAX <= u64::MAX,
                ;
            }
            let outcome = &outcomes[i];
            total_tokens = total_tokens + outcome.prompt_tokens as u128;
            total_tokenization = total_tokenization + outcome.tokenization as u128;
            total_queue = total_queue + outcome.queue as u128;
            total_inference = total_inference + outcome.inference as u128;
            i += 1;
        }
        proof {
            assert(tokens.take(count as int) =~= tokens);
            assert(tokenizations.take(count as int) =~= tokenizations);
            assert(queues.take(count as int) =~= queues);
            assert(inferences.take(count as int) =~= inferences);
            lemma_mean_of_bound(tokenizations, u64::MAX as nat);
            lemma_mean_of_bound(queues, u64::MAX as nat);
            lemma_mean_of_bound(inferences, u64::MAX as nat);
        }
        let divisor = count as u128;
        ResponseMetadata::new(
            compute_chars,
            total_tokens as usize,
            start_time,
            now,
            (total_tokenization / divisor) as u64,
            (total_queue / divisor) as u64,
            (total_inference / divisor) as u64,
        )
    }

    /// The values for the response headers: counts as they are, durations in
    /// whole milliseconds. The compute time is the total time.
    pub fn header_values(&self) -> (values: HeaderValues)
        ensures
            values == (HeaderValues {
                compute_time: millis_of(self.total_time),
                compute_characters: self.compute_chars,
                compute_tokens: self.compute_tokens,
                total_time: millis_of(self.total_time),
                tokenization_time: millis_of(self.tokenization),
                queue_time: millis_of(self.queue),
                inference_time: millis_of(self.inference),
            }),
    {
        HeaderValues {
            compute_time: as_millis(self.total_time),
            compute_characters: self.compute_chars,
            compute_tokens: self.compute_tokens,
            total_time: as_millis(self.total_time),
            tokenization_time: as_millis(self.tokenization),
            queue_time: as_millis(self.queue),
            inference_time: as_millis(self.inference),
        }
    }
}

} // verus!
