//! What is served: the capability of the bound model, and what follows
//! from it for each endpoint.

use crate::batch::{Counter, FailureLabel, ValidationReason};
use crate::error::{status_of, ErrorResponse, ErrorType};
use vstd::prelude::*;

verus! {

/// A sequence-classification model. The label of class `i` is
/// `id2label[i]`.
#[derive(Debug, Clone, PartialEq, Eq)]
pub struct ClassifierModel {
    pub id2label: Vec<String>,
}

/// An embedding model.
#[derive(Debug, Clone, PartialEq, Eq)]
pub struct EmbeddingModel {
    pub pooling: String,
}

/// The capability of the bound model.
#[derive(Debug, Clone, PartialEq, Eq)]
pub enum ModelType {
    Classifier(ClassifierModel),
    Reranker(ClassifierModel),
    Embedding(EmbeddingModel),
}

/// What the handlers read of the service's configuration.
#[derive(Debug, Clone, PartialEq, Eq)]
pub struct Info {
    pub model_id: String,
    pub model_type: ModelType,
    pub max_client_batch_size: usize,
}

/// The three operations of the service.
#[derive(Clone, Copy, Debug, PartialEq, Eq, Structural)]
pub enum Endpoint {
    Predict,
    Rerank,
    Embed,
}

/// The operation that the default route and the invocation route lead to.
pub open spec fn default_endpoint_of(model: ModelType) -> Endpoint {
    match model {
        ModelType::Classifier(_) => Endpoint::Predict,
        ModelType::Reranker(_) => Endpoint::Rerank,
        ModelType::Embedding(_) => Endpoint::Embed,
    }
}

/// The class labels of a model that classifies.
pub open spec fn labels_of(model: ModelType) -> Option<Vec<String>> {
    match model {
        ModelType::Classifier(model) => Some(model.id2label),
        ModelType::Reranker(model) => Some(model.id2label),
        ModelType::Embedding(_) => None,
    }
}

/// The message for a rerank request to a model that is no re-ranker.
pub open spec fn not_reranker_message() -> Seq<char> {
    "model is not a re-ranker model"@
}

/// The message for a classification request to a model that is no
/// classifier.
pub open spec fn not_classifier_message() -> Seq<char> {
    "model is not a classifier model"@
}

/// The message of a failed health probe.
pub open spec fn unhealthy_message() -> Seq<char> {
    "unhealthy"@
}

impl ModelType {
    /// The operation that the default route and the invocation route lead
    /// to for this model.
    pub fn default_endpoint(&self) -> (endpoint: Endpoint)
        ensures
            endpoint == default_endpoint_of(*self),
    {
        match self {
            ModelType::Classifier(_) => Endpoint::Predict,
            ModelType::Reranker(_) => Endpoint::Rerank,
            ModelType::Embedding(_) => Endpoint::Embed,
        }
    }

    /// The class labels of the model, where it classifies: a classifier or
    /// a re-ranker. An embedding model has none.
    pub fn labels(&self) -> (labels: Option<&Vec<String>>)
        ensures
            match labels {
                Some(labels) => labels_of(*self) == Some(*labels),
                None => labels_of(*self) is None,
            },
    {
        match self {
            ModelType::Classifier(model) => Some(&model.id2label),
            ModelType::Reranker(model) => Some(&model.id2label),
            ModelType::Embedding(_) => None,
        }
    }

    /// Checks, once per classification request and before anything else,
    /// that the model classifies, and hands out its labels. An embedding
    /// model fails the request as a backend error, counted by its reason.
    pub fn ensure_classifier(&self, counters: &mut Vec<Counter>) -> (r: Result<
        &Vec<String>,
        ErrorResponse,
    >)
        ensures
            r is Ok <==> !(*self is Embedding),
            r matches Ok(labels) ==> labels_of(*self) == Some(*labels) && final(counters)@ == old(counters)@,
            r matches Err(error) ==> error.error_type == ErrorType::Backend && error.error@
                == not_classifier_message() && final(counters)@ == old(counters)@.push(
                Counter::Failure(FailureLabel::Reason(ValidationReason::ModelType)),
            ),
            r matches Err(error) ==> status_of(error.error_type) == 424,
    {
        match self.labels() {
            Some(labels) => Ok(labels),
            None => {
                counters.push(Counter::Failure(FailureLabel::Reason(ValidationReason::ModelType)));
                Err(ErrorResponse::new("model is not a classifier model", ErrorType::Backend))
            },
        }
    }

    /// Checks, once per rerank request and before anything else, that the
    /// model is a re-ranker. Any other model fails the request as a backend
    /// error, counted by its reason.
    pub fn ensure_reranker(&self, counters: &mut Vec<Counter>) -> (r: Result<(), ErrorResponse>)
        ensures
            r is Ok <==> *self is Reranker,
            r is Ok ==> final(counters)@ == old(counters)@,
            r matches Err(error) ==> error.error_type == ErrorType::Backend && error.error@
                == not_reranker_message() && final(counters)@ == old(counters)@.push(
                Counter::Failure(FailureLabel::Reason(ValidationReason::ModelType)),
            ),
            r matches Err(error) ==> status_of(error.error_type) == 424,
    {
        match self {
            ModelType::Reranker(_) => Ok(()),
            _ => {
                counters.push(Counter::Failure(FailureLabel::Reason(ValidationReason::ModelType)));
                Err(ErrorResponse::new("model is not a re-ranker model", ErrorType::Backend))
            },
        }
    }
}

/// The answer to a health probe: nothing where the engine is healthy, the
/// error of kind `Unhealthy` where it is not.
pub fn health(healthy: bool) -> (r: Result<(), ErrorResponse>)
    ensures
        r is Ok <==> healthy,
        r matches Err(error) ==> error.error_type == ErrorType::Unhealthy && error.error@
            == unhealthy_message(),
{
    if healthy {
        Ok(())
    } else {
        Err(ErrorResponse::new("unhealthy", ErrorType::Unhealthy))
    }
}

} // verus!
