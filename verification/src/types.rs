//! The typed shapes of what clients send: sequences, classification inputs
//! and embedding inputs.

use vstd::prelude::*;
use vstd::string::StrSliceExecFns;

verus! {

/// One unit of classification input: a text, or a pair of texts for models
/// that score two inputs together.
#[derive(Debug, Clone, PartialEq, Eq)]
pub enum Sequence {
    Single(String),
    Pair(String, String),
}

/// The mathematical value of a [`Sequence`].
pub enum SequenceView {
    Single(Seq<char>),
    Pair(Seq<char>, Seq<char>),
}

impl SequenceView {
    /// The number of characters held, both texts of a pair counted.
    pub open spec fn char_count(self) -> nat {
        match self {
            SequenceView::Single(text) => text.len(),
            SequenceView::Pair(first, second) => first.len() + second.len(),
        }
    }
}

impl View for Sequence {
    type V = SequenceView;

    open spec fn view(&self) -> SequenceView {
        match self {
            Sequence::Single(text) => SequenceView::Single(text@),
            Sequence::Pair(first, second) => SequenceView::Pair(first@, second@),
        }
    }
}

impl Sequence {
    /// The number of characters in the sequence.
    pub fn count_chars(&self) -> (count: usize)
        requires
            self@.char_count() <= usize::MAX,
        ensures
            count == self@.char_count(),
    {
        match self {
            Sequence::Single(text) => text.as_str().unicode_len(),
            Sequence::Pair(first, second) => {
                first.as_str().unicode_len() + second.as_str().unicode_len()
            },
        }
    }
}

/// A count as a `usize`, where it fits.
pub open spec fn fitting(count: nat) -> Option<usize> {
    if count <= usize::MAX {
        Some(count as usize)
    } else {
        None
    }
}

impl Sequence {
    /// The number of characters in the sequence, or `None` where the count
    /// does not fit in a `usize`.
    pub fn checked_count_chars(&self) -> (count: Option<usize>)
        ensures
            count == fitting(self@.char_count()),
    {
        match self {
            Sequence::Single(text) => Some(text.as_str().unicode_len()),
            Sequence::Pair(first, second) => {
                first.as_str().unicode_len().checked_add(second.as_str().unicode_len())
            },
        }
    }
}

/// What the inference engine tokenizes: one text, or two texts encoded
/// together.
#[derive(Debug, Clone, PartialEq, Eq)]
pub enum EncodingInput {
    Single(String),
    Dual(String, String),
}

impl From<Sequence> for EncodingInput {
    fn from(value: Sequence) -> (r: Self) {
        match value {
            Sequence::Single(text) => EncodingInput::Single(text),
            Sequence::Pair(first, second) => EncodingInput::Dual(first, second),
        }
    }
}

impl vstd::std_specs::convert::FromSpecImpl<Sequence> for EncodingInput {
    open spec fn obeys_from_spec() -> bool {
        true
    }

    open spec fn from_spec(value: Sequence) -> Self {
        match value {
            Sequence::Single(text) => EncodingInput::Single(text),
            Sequence::Pair(first, second) => EncodingInput::Dual(first, second),
        }
    }
}

/// The views of a list of sequences, in order.
pub open spec fn sequence_views(sequences: Seq<Sequence>) -> Seq<SequenceView> {
    sequences.map_values(|sequence: Sequence| sequence@)
}

/// The views of a list of texts, in order.
pub open spec fn text_views(texts: Seq<String>) -> Seq<Seq<char>> {
    texts.map_values(|text: String| text@)
}

/// The input of a classification request: one sequence, or a batch of them.
#[derive(Debug, Clone, PartialEq, Eq)]
pub enum PredictInput {
    Single(Sequence),
    Batch(Vec<Sequence>),
}

/// The mathematical value of a [`PredictInput`].
pub enum PredictInputView {
    Single(SequenceView),
    Batch(Seq<SequenceView>),
}

impl View for PredictInput {
    type V = PredictInputView;

    open spec fn view(&self) -> PredictInputView {
        match self {
            PredictInput::Single(sequence) => PredictInputView::Single(sequence@),
            PredictInput::Batch(sequences) => PredictInputView::Batch(sequence_views(sequences@)),
        }
    }
}

impl PredictInputView {
    /// A batch is never empty.
    pub open spec fn wf(self) -> bool {
        self matches PredictInputView::Batch(sequences) ==> sequences.len() > 0
    }
}

/// The input of an embedding request: one text, or a batch of texts in the
/// order they were submitted.
#[derive(Debug, Clone, PartialEq, Eq)]
pub enum Input {
    Single(String),
    Batch(Vec<String>),
}

/// The mathematical value of an [`Input`].
pub enum InputView {
    Single(Seq<char>),
    Batch(Seq<Seq<char>>),
}

impl View for Input {
    type V = InputView;

    open spec fn view(&self) -> InputView {
        match self {
            Input::Single(text) => InputView::Single(text@),
            Input::Batch(texts) => InputView::Batch(text_views(texts@)),
        }
    }
}

/// Whether embeddings are normalized when the request does not say.
pub fn default_normalize() -> (normalize: bool)
    ensures
        normalize,
{
    true
}

} // verus!
