use text_embeddings_router::metadata::{
    as_millis, elapsed, total_tokens, CallOutcome, HeaderValues, ResponseMetadata,
};

fn outcome(prompt_tokens: usize, tokenization: u64, queue: u64, inference: u64) -> CallOutcome<()> {
    CallOutcome { payload: (), prompt_tokens, tokenization, queue, inference }
}

const MS: u64 = 1_000_000;

#[test]
fn batch_of_two_reports_truncated_mean_tokenization() {
    let outcomes = vec![outcome(1, 10 * MS, 0, 0), outcome(1, 21 * MS, 0, 0)];
    let metadata = ResponseMetadata::of_batch(&outcomes, 0, 0, 0);
    assert_eq!(metadata.tokenization, 15_500_000);
    assert_eq!(metadata.header_values().tokenization_time, 15);
}

#[test]
fn mean_drops_the_remainder_of_the_division() {
    let outcomes = vec![outcome(0, 1, 2, 3), outcome(0, 2, 2, 4), outcome(0, 2, 3, 4)];
    let metadata = ResponseMetadata::of_batch(&outcomes, 0, 0, 0);
    assert_eq!(metadata.tokenization, 1);
    assert_eq!(metadata.queue, 2);
    assert_eq!(metadata.inference, 3);
}

#[test]
fn batch_sums_tokens_and_keeps_chars() {
    let outcomes = vec![outcome(3, 0, 0, 0), outcome(4, 0, 0, 0), outcome(5, 0, 0, 0)];
    let metadata = ResponseMetadata::of_batch(&outcomes, 77, 100, 350);
    assert_eq!(metadata.compute_tokens, 12);
    assert_eq!(metadata.compute_chars, 77);
    assert_eq!(metadata.start_time, 100);
    assert_eq!(metadata.total_time, 250);
}

#[test]
fn batch_of_one_reports_the_call() {
    let outcomes = vec![outcome(9, 11, 22, 33)];
    let batch = ResponseMetadata::of_batch(&outcomes, 5, 10, 20);
    let single = ResponseMetadata::of_single(&outcomes[0], 5, 10, 20);
    assert_eq!(batch, single);
}

#[test]
fn mean_of_the_largest_durations_does_not_overflow() {
    let outcomes = vec![
        outcome(0, u64::MAX, u64::MAX, u64::MAX),
        outcome(0, u64::MAX, u64::MAX - 1, 0),
        outcome(0, u64::MAX, u64::MAX, 1),
    ];
    let metadata = ResponseMetadata::of_batch(&outcomes, 0, 0, 0);
    assert_eq!(metadata.tokenization, u64::MAX);
    assert_eq!(metadata.queue, u64::MAX - 1);
    assert_eq!(metadata.inference, 6148914691236517205);
}

#[test]
fn single_call_reports_raw_values() {
    let metadata = ResponseMetadata::of_single(&outcome(7, 10 * MS, 21 * MS, 5), 12, 1_000, 4_000);
    assert_eq!(
        metadata,
        ResponseMetadata {
            compute_chars: 12,
            compute_tokens: 7,
            start_time: 1_000,
            total_time: 3_000,
            tokenization: 10 * MS,
            queue: 21 * MS,
            inference: 5,
        }
    );
}

#[test]
fn new_measures_total_time_once() {
    let metadata = ResponseMetadata::new(1, 2, 50, 80, 3, 4, 5);
    assert_eq!(metadata.total_time, 30);
    assert_eq!(metadata.start_time, 50);
    assert_eq!(metadata.compute_chars, 1);
    assert_eq!(metadata.compute_tokens, 2);
    assert_eq!(metadata.tokenization, 3);
    assert_eq!(metadata.queue, 4);
    assert_eq!(metadata.inference, 5);
}

#[test]
fn elapsed_is_zero_when_the_clock_went_backwards() {
    assert_eq!(elapsed(10, 25), 15);
    assert_eq!(elapsed(25, 25), 0);
    assert_eq!(elapsed(25, 10), 0);
    assert_eq!(elapsed(0, u64::MAX), u64::MAX);
}

#[test]
fn milliseconds_are_whole() {
    assert_eq!(as_millis(0), 0);
    assert_eq!(as_millis(999_999), 0);
    assert_eq!(as_millis(1_000_000), 1);
    assert_eq!(as_millis(15_500_000), 15);
    assert_eq!(as_millis(15_999_999), 15);
}

#[test]
fn header_values_carry_every_field() {
    let metadata = ResponseMetadata {
        compute_chars: 40,
        compute_tokens: 12,
        start_time: 0,
        total_time: 123_456_789,
        tokenization: 2_900_000,
        queue: 31_000_000,
        inference: 80_100_000,
    };
    assert_eq!(
        metadata.header_values(),
        HeaderValues {
            compute_time: 123,
            compute_characters: 40,
            compute_tokens: 12,
            total_time: 123,
            tokenization_time: 2,
            queue_time: 31,
            inference_time: 80,
        }
    );
}

#[test]
fn total_tokens_is_none_when_it_does_not_fit() {
    assert_eq!(total_tokens::<()>(&vec![]), Some(0));
    assert_eq!(total_tokens(&vec![outcome(3, 0, 0, 0), outcome(4, 0, 0, 0)]), Some(7));
    assert_eq!(total_tokens(&vec![outcome(usize::MAX, 0, 0, 0), outcome(0, 0, 0, 0)]), Some(usize::MAX));
    assert_eq!(total_tokens(&vec![outcome(usize::MAX, 0, 0, 0), outcome(1, 0, 0, 0)]), None);
}
