//! Embedding responses in the three schemas that carry them. The elements
//! of an embedding pass through untouched, whatever their type.

use crate::collect::reversed;
use crate::metadata::{
    batch_summary, single_summary, sum_of, token_column, CallOutcome, ResponseMetadata,
};
use vstd::prelude::*;

verus! {

/// One embedding of an OpenAI-compatible response.
#[derive(Debug, Clone, PartialEq, Eq)]
pub struct OpenAICompatEmbedding<E> {
    pub object: &'static str,
    pub embedding: Vec<E>,
    /// The position of the input in the request.
    pub index: usize,
}

/// The token usage of an OpenAI-compatible response.
#[derive(Debug, Clone, Copy, PartialEq, Eq, Structural)]
pub struct OpenAICompatUsage {
    pub prompt_tokens: usize,
    pub total_tokens: usize,
}

/// An OpenAI-compatible response.
#[derive(Debug, Clone, PartialEq, Eq)]
pub struct OpenAICompatResponse<E> {
    pub object: &'static str,
    pub data: Vec<OpenAICompatEmbedding<E>>,
    pub model: String,
    pub usage: OpenAICompatUsage,
}

/// A Weaviate-compatible response: the text, its embedding and the
/// embedding's dimension.
#[derive(Debug, Clone, PartialEq, Eq)]
pub struct EmbedWeaviateResponse<E> {
    pub text: String,
    pub vector: Vec<E>,
    pub dim: usize,
}

/// The payloads of a list of outcomes, in order.
pub open spec fn payloads<P>(outcomes: Seq<CallOutcome<P>>) -> Seq<P> {
    Seq::new(outcomes.len(), |i: int| outcomes[i].payload)
}

/// `data` holds the given embeddings in order, each with its position.
pub open spec fn is_embedding_list<E>(
    data: Seq<OpenAICompatEmbedding<E>>,
    embeddings: Seq<Vec<E>>,
) -> bool {
    &&& data.len() == embeddings.len()
    &&& forall|i: int|
        0 <= i < data.len() ==> {
            &&& (#[trigger] data[i]).embedding == embeddings[i]
            &&& data[i].index == i
            &&& data[i].object@ == "embedding"@
        }
}

/// The embeddings of a batch, each at the position of its input.
pub fn embeddings_of<E>(outcomes: Vec<CallOutcome<Vec<E>>>) -> (embeddings: Vec<Vec<E>>)
    ensures
        embeddings@ == payloads(outcomes@),
{
    let mut rest = outcomes;
    let mut backwards: Vec<Vec<E>> = Vec::new();
    while rest.len() > 0
        invariant
            rest@.len() + backwards@.len() == outcomes@.len(),
            forall|j: int| 0 <= j < rest@.len() ==> rest@[j] == outcomes@[j],
            forall|j: int|
                0 <= j < backwards@.len() ==> #[trigger] backwards@[j] == outcomes@[outcomes@.len()
                    - 1 - j].payload,
        decreases rest@.len(),
    {
        let outcome = rest.pop().unwrap();
        backwards.push(outcome.payload);
    }
    let embeddings = reversed(backwards);
    assert(embeddings@ =~= payloads(outcomes@));
    embeddings
}

/// The response to a single embedding request, with its summary: a list of
/// the one embedding.
pub fn embed_single<E>(
    outcome: CallOutcome<Vec<E>>,
    compute_chars: usize,
    start_time: u64,
    now: u64,
) -> (r: (Vec<Vec<E>>, ResponseMetadata))
    ensures
        r.0@ == seq![outcome.payload],
        r.1 == single_summary(outcome, compute_chars, start_time, now),
{
    let metadata = ResponseMetadata::of_single(&outcome, compute_chars, start_time, now);
    let mut embeddings: Vec<Vec<E>> = Vec::new();
    embeddings.push(outcome.payload);
    assert(embeddings@ =~= seq![outcome.payload]);
    (embeddings, metadata)
}

/// The response to a batch of embedding requests, with its summary: the
/// embedding of each input at the input's own position.
pub fn embed_batch<E>(
    outcomes: Vec<CallOutcome<Vec<E>>>,
    compute_chars: usize,
    start_time: u64,
    now: u64,
) -> (r: (Vec<Vec<E>>, ResponseMetadata))
    requires
        outcomes@.len() > 0,
        sum_of(token_column(outcomes@)) <= usize::MAX,
    ensures
        r.0@ == payloads(outcomes@),
        r.1 == batch_summary(outcomes@, compute_chars, start_time, now),
{
    let metadata = ResponseMetadata::of_batch(&outcomes, compute_chars, start_time, now);
    (embeddings_of(outcomes), metadata)
}

/// The OpenAI-compatible response for a list of embeddings: each with its
/// position, under the model's name, with the tokens computed reported both
/// as prompt tokens and as total tokens.
pub fn openai_response<E>(
    embeddings: Vec<Vec<E>>,
    model_id: &String,
    metadata: &ResponseMetadata,
) -> (response: OpenAICompatResponse<E>)
    ensures
        response.object@ == "list"@,
        is_embedding_list(response.data@, embeddings@),
        response.model@ == model_id@,
        response.usage == (OpenAICompatUsage {
            prompt_tokens: metadata.compute_tokens,
            total_tokens: metadata.compute_tokens,
        }),
{
    let mut rest = embeddings;
    let mut backwards: Vec<OpenAICompatEmbedding<E>> = Vec::new();
    while rest.len() > 0
        invariant
            rest@.len() + backwards@.len() == embeddings@.len(),
            forall|j: int| 0 <= j < rest@.len() ==> rest@[j] == embeddings@[j],
            forall|j: int|
                0 <= j < backwards@.len() ==> {
                    &&& (#[trigger] backwards@[j]).embedding == embeddings@[embeddings@.len() - 1
                        - j]
                    &&& backwards@[j].index == embeddings@.len() - 1 - j
                    &&& backwards@[j].object@ == "embedding"@
                },
        decreases rest@.len(),
    {
        let index = rest.len() - 1;
        let embedding = rest.pop().unwrap();
        backwards.push(OpenAICompatEmbedding { object: "embedding", embedding, index });
    }
    let data = reversed(backwards);
    OpenAICompatResponse {
        object: "list",
        data,
        model: model_id.clone(),
        usage: OpenAICompatUsage {
            prompt_tokens: metadata.compute_tokens,
            total_tokens: metadata.compute_tokens,
        },
    }
}

/// The Weaviate-compatible response for one text and its embedding.
pub fn weaviate_response<E>(text: String, vector: Vec<E>) -> (response: EmbedWeaviateResponse<E>)
    ensures
        response.text == text,
        response.vector == vector,
        response.dim == vector@.len(),
{
    let dim = vector.len();
    EmbedWeaviateResponse { text, vector, dim }
}

} // verus!
