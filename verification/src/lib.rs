//! Admission control and batch orchestration for a text-embeddings inference
//! gateway: the request grammar, the batching policy, the result gathering,
//! the timing summaries and the error taxonomy, each with its contract.
//!
//! The inference engine, the admission budget, the clock and the HTTP
//! transport stay outside. The library decides on values that a caller
//! hands in and hands back what is to be done or returned.

pub mod batch;
pub mod chars;
pub mod collect;
pub mod embed;
pub mod error;
pub mod grammar;
pub mod json;
pub mod metadata;
pub mod model;
pub mod predict;
pub mod request;
pub mod rerank;
pub mod score;
pub mod text;
pub mod types;
