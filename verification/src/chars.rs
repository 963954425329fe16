//! The number of characters a request submits.
//!
//! Counts are sums over everything submitted, so they can exceed what a
//! `usize` holds. Each function here returns `None` in that case and the
//! exact count otherwise.

use crate::metadata::{lemma_sum_of_prefix, lemma_sum_of_push, sum_of};
use crate::types::{fitting, Sequence};
use vstd::prelude::*;
use vstd::string::StrSliceExecFns;

verus! {

/// The character counts of a list of sequences, in order.
pub open spec fn sequence_lengths(sequences: Seq<Sequence>) -> Seq<nat> {
    Seq::new(sequences.len(), |i: int| sequences[i]@.char_count())
}

/// The character counts of a list of texts, in order.
pub open spec fn text_lengths(texts: Seq<String>) -> Seq<nat> {
    Seq::new(texts.len(), |i: int| texts[i]@.len())
}

/// The characters of a rerank request: the query once for every text, and
/// every text.
pub open spec fn rerank_char_count(query: Seq<char>, texts: Seq<String>) -> nat {
    query.len() * texts.len() + sum_of(text_lengths(texts))
}

/// The number of characters in a text.
pub fn count_text_chars(text: &String) -> (count: usize)
    ensures
        count == text@.len(),
{
    text.as_str().unicode_len()
}

/// The number of characters in a batch of sequences.
pub fn total_chars(sequences: &Vec<Sequence>) -> (count: Option<usize>)
    ensures
        count == fitting(sum_of(sequence_lengths(sequences@))),
{
    let ghost lengths = sequence_lengths(sequences@);
    let mut count: usize = 0;
    let mut i: usize = 0;
    assert(lengths.take(0) =~= Seq::<nat>::empty());
    while i < sequences.len()
        invariant
            0 <= i <= sequences@.len(),
            lengths == sequence_lengths(sequences@),
            count == sum_of(lengths.take(i as int)),
        decreases sequences@.len() - i,
    {
        proof {
            assert(lengths.take(i + 1) =~= lengths.take(i as int).push(lengths[i as int]));
            lemma_sum_of_push(lengths.take(i as int), lengths[i as int]);
            lemma_sum_of_prefix(lengths, i + 1);
        }
        let next = match sequences[i].checked_count_chars() {
            Some(chars) => count.checked_add(chars),
            None => None,
        };
        match next {
            Some(sum) => {
                count = sum;
            },
            None => {
                return None;
            },
        }
        i += 1;
    }
    assert(lengths.take(i as int) =~= lengths);
    Some(count)
}

/// The number of characters in a batch of texts.
pub fn total_text_chars(texts: &Vec<String>) -> (count: Option<usize>)
    ensures
        count == fitting(sum_of(text_lengths(texts@))),
{
    let ghost lengths = text_lengths(texts@);
    let mut count: usize = 0;
    let mut i: usize = 0;
    assert(lengths.take(0) =~= Seq::<nat>::empty());
    while i < texts.len()
        invariant
            0 <= i <= texts@.len(),
            lengths == text_lengths(texts@),
            count == sum_of(lengths.take(i as int)),
        decreases texts@.len() - i,
    {
        proof {
            assert(lengths.take(i + 1) =~= lengths.take(i as int).push(lengths[i as int]));
            lemma_sum_of_push(lengths.take(i as int), lengths[i as int]);
            lemma_sum_of_prefix(lengths, i + 1);
        }
        match count.checked_add(count_text_chars(&texts[i])) {
            Some(sum) => {
                count = sum;
            },
            None => {
                return None;
            },
        }
        i += 1;
    }
    assert(lengths.take(i as int) =~= lengths);
    Some(count)
}

/// The number of characters in a rerank request.
pub fn rerank_chars(query: &String, texts: &Vec<String>) -> (count: Option<usize>)
    ensures
        count == fitting(rerank_char_count(query@, texts@)),
{
    let query_chars = count_text_chars(query);
    let batch_size = texts.len();
    match query_chars.checked_mul(batch_size) {
        Some(queries) => match total_text_chars(texts) {
            Some(texts_chars) => queries.checked_add(texts_chars),
            None => None,
        },
        None => None,
    }
}

} // verus!
