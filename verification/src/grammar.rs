//! The request grammar: how an untyped JSON value becomes a typed input.
//!
//! Classification inputs carry no field that says whether a value is one
//! sequence or a batch; the shape decides. A string is one sequence. In an
//! array, the first element alone decides how the rest is read: a string
//! makes the whole array one sequence of one or two texts, an array makes
//! every element a sequence of its own.

use crate::collect::{
    collect_results, lemma_collect_all_or_nothing, lemma_collect_prefix_error, lemma_collect_push,
};
use crate::error::{ErrorResponse, ErrorType};
use crate::json::{json_views, lemma_array_view, JsonValue, JsonView};
use crate::text::{decimal_of, decimal_string};
use crate::types::{
    sequence_views, text_views, Input, InputView, PredictInput, PredictInputView, Sequence,
    SequenceView,
};
use vstd::prelude::*;
use vstd::string::StringExecFns;

verus! {

/// Why a JSON value is no input.
#[derive(Clone, Copy, Debug, PartialEq, Eq, Structural)]
pub enum InputError {
    /// A sequence with this many texts was found where one or two are
    /// accepted. A flat array with more than two elements is reported as
    /// having three.
    InvalidLength(usize),
    /// A value of another JSON type was found than the one that is accepted
    /// in its place.
    InvalidType,
    /// An object lacks a member that a request must have.
    MissingField,
}

/// What is accepted as the input of a classification request.
pub open spec fn predict_input_expectation() -> Seq<char> {
    "a string, a pair of strings [string, string] or a batch of mixed strings and pairs [[string], [string, string], ...]"@
}

/// What is accepted as the input of an embedding request.
pub open spec fn input_expectation() -> Seq<char> {
    "a string or a batch of strings [string, ...]"@
}

/// What a client is told of a value that is no input, where `expected`
/// says what is accepted.
pub open spec fn input_error_message(error: InputError, expected: Seq<char>) -> Seq<char> {
    match error {
        InputError::InvalidLength(length) => "invalid length "@ + decimal_of(length as nat)
            + ", expected "@ + expected,
        InputError::InvalidType => "invalid type, expected "@ + expected,
        InputError::MissingField => "missing field"@,
    }
}

/// What is accepted as the input of a classification request.
pub fn predict_input_expected() -> (expected: &'static str)
    ensures
        expected@ == predict_input_expectation(),
{
    "a string, a pair of strings [string, string] or a batch of mixed strings and pairs [[string], [string, string], ...]"
}

/// What is accepted as the input of an embedding request.
pub fn input_expected() -> (expected: &'static str)
    ensures
        expected@ == input_expectation(),
{
    "a string or a batch of strings [string, ...]"
}

impl InputError {
    /// The error that answers a request whose body is no input: a
    /// validation error that says what was wrong and what is accepted.
    pub fn to_response(&self, expected: &str) -> (response: ErrorResponse)
        ensures
            response.error_type == ErrorType::Validation,
            response.error@ == input_error_message(*self, expected@),
    {
        match self {
            InputError::InvalidLength(length) => {
                let mut message = String::from_str("invalid length ");
                let digits = decimal_string(*length);
                message.append(digits.as_str());
                message.append(", expected ");
                message.append(expected);
                ErrorResponse { error: message, error_type: ErrorType::Validation }
            },
            InputError::InvalidType => {
                let mut message = String::from_str("invalid type, expected ");
                message.append(expected);
                ErrorResponse { error: message, error_type: ErrorType::Validation }
            },
            InputError::MissingField => ErrorResponse::new("missing field", ErrorType::Validation),
        }
    }
}

/// Every value of the list is a string.
pub open spec fn all_strings(items: Seq<JsonView>) -> bool {
    forall|i: int| 0 <= i < items.len() ==> items[i] is Str
}

/// The texts of a list of strings, in order.
pub open spec fn string_texts(items: Seq<JsonView>) -> Seq<Seq<char>> {
    Seq::new(items.len(), |i: int| items[i]->Str_0)
}

/// The sequence made of a list of texts: one text or a pair, and no other
/// length.
pub open spec fn sequence_of_texts(texts: Seq<Seq<char>>) -> Result<SequenceView, InputError> {
    if texts.len() == 1 {
        Ok(SequenceView::Single(texts[0]))
    } else if texts.len() == 2 {
        Ok(SequenceView::Pair(texts[0], texts[1]))
    } else {
        Err(InputError::InvalidLength(texts.len() as usize))
    }
}

/// The sequence that one element of a batch stands for: an array of one or
/// two strings.
pub open spec fn sequence_of(item: JsonView) -> Result<SequenceView, InputError> {
    match item {
        JsonView::Array(texts) => if all_strings(texts) {
            sequence_of_texts(string_texts(texts))
        } else {
            Err(InputError::InvalidType)
        },
        _ => Err(InputError::InvalidType),
    }
}

/// What each element of a list stands for, in order.
pub open spec fn sequence_results(items: Seq<JsonView>) -> Seq<Result<SequenceView, InputError>> {
    Seq::new(items.len(), |i: int| sequence_of(items[i]))
}

/// The batch that a list of elements stands for: every element's sequence in
/// order, or the error of the first element that is no sequence.
pub open spec fn batch_of(items: Seq<JsonView>) -> Result<Seq<SequenceView>, InputError> {
    collect_results(sequence_results(items))
}

/// The sequence that an array starting with a string stands for. The second
/// element, if there is one, must be a string too, and there is no third.
pub open spec fn flat_sequence_of(items: Seq<JsonView>) -> Result<SequenceView, InputError>
    recommends
        items.len() >= 1,
        items[0] is Str,
{
    if items.len() == 1 {
        Ok(SequenceView::Single(items[0]->Str_0))
    } else if !(items[1] is Str) {
        Err(InputError::InvalidType)
    } else if items.len() == 2 {
        Ok(SequenceView::Pair(items[0]->Str_0, items[1]->Str_0))
    } else {
        Err(InputError::InvalidLength(3))
    }
}

/// The classification input that a JSON value stands for.
pub open spec fn predict_input_of(value: JsonView) -> Result<PredictInputView, InputError> {
    match value {
        JsonView::Str(text) => Ok(PredictInputView::Single(SequenceView::Single(text))),
        JsonView::Array(items) => if items.len() == 0 {
            Err(InputError::InvalidLength(0))
        } else {
            match items[0] {
                JsonView::Str(_) => match flat_sequence_of(items) {
                    Ok(sequence) => Ok(PredictInputView::Single(sequence)),
                    Err(error) => Err(error),
                },
                JsonView::Array(_) => match batch_of(items) {
                    Ok(sequences) => Ok(PredictInputView::Batch(sequences)),
                    Err(error) => Err(error),
                },
                _ => Err(InputError::InvalidType),
            }
        },
        _ => Err(InputError::InvalidType),
    }
}

/// The embedding input that a JSON value stands for: a string, or an array
/// of strings.
pub open spec fn input_of(value: JsonView) -> Result<InputView, InputError> {
    match value {
        JsonView::Str(text) => Ok(InputView::Single(text)),
        JsonView::Array(items) => if all_strings(items) {
            Ok(InputView::Batch(string_texts(items)))
        } else {
            Err(InputError::InvalidType)
        },
        _ => Err(InputError::InvalidType),
    }
}

/// The view of a parse result.
pub open spec fn predict_result_view(result: Result<PredictInput, InputError>) -> Result<
    PredictInputView,
    InputError,
> {
    match result {
        Ok(input) => Ok(input@),
        Err(error) => Err(error),
    }
}

/// The view of a parse result.
pub open spec fn input_result_view(result: Result<Input, InputError>) -> Result<
    InputView,
    InputError,
> {
    match result {
        Ok(input) => Ok(input@),
        Err(error) => Err(error),
    }
}

/// The view of a parse result.
pub open spec fn sequence_result_view(result: Result<Sequence, InputError>) -> Result<
    SequenceView,
    InputError,
> {
    match result {
        Ok(sequence) => Ok(sequence@),
        Err(error) => Err(error),
    }
}

/// A batch is all or nothing. Where a list stands for a batch, every element
/// stands for the sequence at its own position. Where it does not, the error
/// is that of the first element that is no sequence.
pub proof fn lemma_batch_of_all_or_nothing(items: Seq<JsonView>)
    ensures
        batch_of(items) matches Ok(sequences) ==> sequences.len() == items.len() && forall|i: int|
            0 <= i < items.len() ==> sequence_of(#[trigger] items[i]) == Ok::<
                SequenceView,
                InputError,
            >(sequences[i]),
        batch_of(items) matches Err(error) ==> exists|k: int|
            0 <= k < items.len() && sequence_of(#[trigger] items[k]) == Err::<
                SequenceView,
                InputError,
            >(error) && forall|j: int| 0 <= j < k ==> sequence_of(#[trigger] items[j]) is Ok,
{
    let results = sequence_results(items);
    lemma_collect_all_or_nothing(results);
    match batch_of(items) {
        Ok(sequences) => {
            assert forall|i: int| 0 <= i < items.len() implies sequence_of(#[trigger] items[i])
                == Ok::<SequenceView, InputError>(sequences[i]) by {
                assert(results[i] == Ok::<SequenceView, InputError>(sequences[i]));
            }
        },
        Err(error) => {
            let k = choose|k: int|
                0 <= k < results.len() && #[trigger] results[k] == Err::<SequenceView, InputError>(
                    error,
                ) && forall|j: int| 0 <= j < k ==> (#[trigger] results[j]) is Ok;
            assert(sequence_of(items[k]) == results[k]);
            assert forall|j: int| 0 <= j < k implies sequence_of(#[trigger] items[j]) is Ok by {
                assert(results[j] is Ok);
            }
        },
    }
}

/// Every classification input that the grammar yields is well formed: a
/// batch is never empty.
pub proof fn lemma_predict_input_wf(value: JsonView)
    ensures
        predict_input_of(value) matches Ok(input) ==> input.wf(),
{
    if let JsonView::Array(items) = value {
        lemma_batch_of_all_or_nothing(items);
    }
}

/// The texts of an array whose items are all strings, or `None` where one of
/// them is not.
fn string_items(items: &Vec<JsonValue>) -> (r: Option<Vec<String>>)
    ensures
        r is Some <==> all_strings(json_views(items@)),
        r matches Some(texts) ==> text_views(texts@) == string_texts(json_views(items@)),
{
    let mut texts: Vec<String> = Vec::new();
    let mut i: usize = 0;
    while i < items.len()
        invariant
            0 <= i <= items.len(),
            texts@.len() == i,
            forall|j: int| 0 <= j < i ==> items@[j]@ == JsonView::Str(#[trigger] texts@[j]@),
        decreases items.len() - i,
    {
        match &items[i] {
            JsonValue::Str(text) => {
                texts.push(text.clone());
            },
            _ => {
                assert(!(json_views(items@)[i as int] is Str));
                return None;
            },
        }
        i += 1;
    }
    assert(all_strings(json_views(items@))) by {
        assert forall|j: int| 0 <= j < items@.len() implies json_views(items@)[j] is Str by {
            assert(items@[j]@ == JsonView::Str(texts@[j]@));
        }
    }
    assert(text_views(texts@) =~= string_texts(json_views(items@))) by {
        assert forall|j: int| 0 <= j < items@.len() implies text_views(texts@)[j] == string_texts(
            json_views(items@),
        )[j] by {
            assert(items@[j]@ == JsonView::Str(texts@[j]@));
        }
    }
    Some(texts)
}

/// The sequence made of a list of texts: one text or a pair.
pub fn sequence_from_vec(texts: Vec<String>) -> (r: Result<Sequence, InputError>)
    ensures
        sequence_result_view(r) == sequence_of_texts(text_views(texts@)),
{
    let mut texts = texts;
    if texts.len() == 1 {
        let only = texts.pop().unwrap();
        Ok(Sequence::Single(only))
    } else if texts.len() == 2 {
        let second = texts.pop().unwrap();
        let first = texts.pop().unwrap();
        Ok(Sequence::Pair(first, second))
    } else {
        Err(InputError::InvalidLength(texts.len()))
    }
}

/// Reads one element of a batch: an array of one or two strings.
pub fn parse_sequence(item: &JsonValue) -> (r: Result<Sequence, InputError>)
    ensures
        sequence_result_view(r) == sequence_of(item@),
{
    match item {
        JsonValue::Array(texts) => {
            proof {
                lemma_array_view(*item);
            }
            match string_items(texts) {
                Some(strings) => sequence_from_vec(strings),
                None => Err(InputError::InvalidType),
            }
        },
        _ => Err(InputError::InvalidType),
    }
}

/// Reads the input of a classification request.
///
/// A string is a single sequence. An empty array is rejected as a sequence
/// of length 0. An array that starts with a string is one sequence of one or
/// two texts. An array that starts with an array is a batch, each element an
/// array of one or two strings; the first element that is not fails the
/// whole batch. Anything else is of the wrong type.
pub fn parse_predict_input(value: &JsonValue) -> (r: Result<PredictInput, InputError>)
    ensures
        predict_result_view(r) == predict_input_of(value@),
        r matches Ok(input) ==> input@.wf(),
{
    proof {
        lemma_predict_input_wf(value@);
    }
    match value {
        JsonValue::Str(text) => Ok(PredictInput::Single(Sequence::Single(text.clone()))),
        JsonValue::Array(items) => {
            proof {
                lemma_array_view(*value);
            }
            if items.len() == 0 {
                return Err(InputError::InvalidLength(0));
            }
            match &items[0] {
                JsonValue::Str(first) => {
                    if items.len() == 1 {
                        return Ok(PredictInput::Single(Sequence::Single(first.clone())));
                    }
                    match &items[1] {
                        JsonValue::Str(second) => {
                            if items.len() == 2 {
                                Ok(
                                    PredictInput::Single(
                                        Sequence::Pair(first.clone(), second.clone()),
                                    ),
                                )
                            } else {
                                Err(InputError::InvalidLength(3))
                            }
                        },
                        _ => Err(InputError::InvalidType),
                    }
                },
                JsonValue::Array(_) => {
                    let ghost views = json_views(items@);
                    let ghost results = sequence_results(views);
                    let mut batch: Vec<Sequence> = Vec::new();
                    let mut i: usize = 0;
                    assert(results.take(0) =~= Seq::<Result<SequenceView, InputError>>::empty());
                    assert(sequence_views(batch@) =~= Seq::<SequenceView>::empty());
                    while i < items.len()
                        invariant
                            0 <= i <= items.len(),
                            views == json_views(items@),
                            results == sequence_results(views),
                            value@ == JsonView::Array(views),
                            views.len() > 0,
                            views[0] is Array,
                            collect_results(results.take(i as int)) == Ok::<
                                Seq<SequenceView>,
                                InputError,
                            >(sequence_views(batch@)),
                        decreases items.len() - i,
                    {
                        proof {
                            assert(results.take(i + 1) =~= results.take(i as int).push(
                                results[i as int],
                            ));
                            lemma_collect_push(results.take(i as int), results[i as int]);
                        }
                        let ghost before = batch@;
                        match parse_sequence(&items[i]) {
                            Ok(sequence) => {
                                batch.push(sequence);
                                assert(sequence_views(batch@) =~= sequence_views(before).push(
                                    sequence@,
                                ));
                            },
                            Err(error) => {
                                proof {
                                    lemma_collect_prefix_error(results, i + 1);
                                }
                                return Err(error);
                            },
                        }
                        i += 1;
                    }
                    assert(results.take(i as int) =~= results);
                    Ok(PredictInput::Batch(batch))
                },
                _ => Err(InputError::InvalidType),
            }
        },
        _ => Err(InputError::InvalidType),
    }
}

/// Reads the input of an embedding request: a string, or an array of
/// strings in the order they were submitted.
pub fn parse_input(value: &JsonValue) -> (r: Result<Input, InputError>)
    ensures
        input_result_view(r) == input_of(value@),
{
    match value {
        JsonValue::Str(text) => Ok(Input::Single(text.clone())),
        JsonValue::Array(items) => {
            proof {
                lemma_array_view(*value);
            }
            match string_items(items) {
                Some(texts) => Ok(Input::Batch(texts)),
                None => Err(InputError::InvalidType),
            }
        },
        _ => Err(InputError::InvalidType),
    }
}

} // verus!
