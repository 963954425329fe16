use text_embeddings_router::embed::{
    embed_batch, embed_single, embeddings_of, openai_response, weaviate_response,
    OpenAICompatEmbedding, OpenAICompatUsage,
};
use text_embeddings_router::metadata::{CallOutcome, ResponseMetadata};
use text_embeddings_router::predict::{
    check_labelling, predict_batch, predict_single, predictions_of, PredictResponse, Prediction,
};
use text_embeddings_router::rerank::{check_ranking, rerank_inputs, rerank_response, Rank};
use text_embeddings_router::types::Sequence;

fn bits(scores: &[f32]) -> Vec<u32> {
    scores.iter().map(|score| score.to_bits()).collect()
}

fn scored(scores: &[f32], prompt_tokens: usize, nanos: u64) -> CallOutcome<Vec<u32>> {
    CallOutcome {
        payload: bits(scores),
        prompt_tokens,
        tokenization: nanos,
        queue: 2 * nanos,
        inference: 3 * nanos,
    }
}

fn embedded(vector: &[f32], prompt_tokens: usize) -> CallOutcome<Vec<f32>> {
    CallOutcome { payload: vector.to_vec(), prompt_tokens, tokenization: 4, queue: 6, inference: 8 }
}

fn labels(names: &[&str]) -> Vec<String> {
    names.iter().map(|name| name.to_string()).collect()
}

fn prediction(score: f32, label: &str) -> Prediction {
    Prediction { score: score.to_bits(), label: label.to_string() }
}

#[test]
fn predictions_pair_scores_with_labels_highest_first() {
    let id2label = labels(&["anger", "joy", "fear"]);
    assert_eq!(
        predictions_of(&bits(&[0.1, 0.7, 0.2]), &id2label),
        vec![prediction(0.7, "joy"), prediction(0.2, "fear"), prediction(0.1, "anger")]
    );
}

#[test]
fn predictions_of_fewer_scores_than_labels() {
    let id2label = labels(&["a", "b", "c"]);
    assert_eq!(
        predictions_of(&bits(&[0.5, 0.5]), &id2label),
        vec![prediction(0.5, "b"), prediction(0.5, "a")]
    );
    assert_eq!(predictions_of(&bits(&[]), &id2label), vec![]);
}

#[test]
fn single_prediction_response_reports_the_call() {
    let id2label = labels(&["no", "yes"]);
    let outcome = scored(&[0.25, 0.75], 6, 10);
    let (response, metadata) = predict_single(&outcome, &id2label, 11, 100, 400);
    assert_eq!(
        response,
        PredictResponse::Single(vec![prediction(0.75, "yes"), prediction(0.25, "no")])
    );
    assert_eq!(
        metadata,
        ResponseMetadata {
            compute_chars: 11,
            compute_tokens: 6,
            start_time: 100,
            total_time: 300,
            tokenization: 10,
            queue: 20,
            inference: 30,
        }
    );
}

#[test]
fn batch_prediction_response_keeps_input_order() {
    let id2label = labels(&["no", "yes"]);
    let outcomes = vec![scored(&[0.9, 0.1], 3, 10), scored(&[0.2, 0.8], 4, 21)];
    let (response, metadata) = predict_batch(&outcomes, &id2label, 20, 0, 50);
    assert_eq!(
        response,
        PredictResponse::Batch(vec![
            vec![prediction(0.9, "no"), prediction(0.1, "yes")],
            vec![prediction(0.8, "yes"), prediction(0.2, "no")],
        ])
    );
    assert_eq!(
        metadata,
        ResponseMetadata {
            compute_chars: 20,
            compute_tokens: 7,
            start_time: 0,
            total_time: 50,
            tokenization: 15,
            queue: 31,
            inference: 46,
        }
    );
}

#[test]
fn labelling_needs_a_label_for_every_score_and_scores_that_compare() {
    let id2label = labels(&["no", "yes"]);
    assert!(check_labelling(&vec![scored(&[0.1, 0.2], 1, 1), scored(&[0.3], 1, 1)], &id2label));
    assert!(check_labelling(&vec![], &id2label));
    assert!(!check_labelling(&vec![scored(&[0.1, 0.2, 0.3], 1, 1)], &id2label));
    assert!(!check_labelling(&vec![scored(&[0.1], 1, 1), scored(&[f32::NAN, 0.2], 1, 1)], &id2label));
    assert!(check_labelling(&vec![scored(&[f32::NAN], 1, 1)], &id2label));
}

#[test]
fn rerank_items_pair_the_query_with_each_text() {
    let texts = labels(&["first", "second"]);
    assert_eq!(
        rerank_inputs(&"q".to_string(), &texts),
        vec![
            Sequence::Pair("q".to_string(), "first".to_string()),
            Sequence::Pair("q".to_string(), "second".to_string()),
        ]
    );
    assert_eq!(rerank_inputs(&"q".to_string(), &vec![]), vec![]);
}

#[test]
fn ranks_keep_the_position_in_the_request() {
    let texts = labels(&["a", "b", "c"]);
    let outcomes = vec![scored(&[0.2], 1, 3), scored(&[0.9], 2, 4), scored(&[0.5], 3, 6)];
    let (ranks, metadata) = rerank_response(&outcomes, &texts, false, 30, 10, 15);
    assert_eq!(
        ranks,
        vec![
            Rank { index: 1, text: None, score: 0.9f32.to_bits() },
            Rank { index: 2, text: None, score: 0.5f32.to_bits() },
            Rank { index: 0, text: None, score: 0.2f32.to_bits() },
        ]
    );
    assert_eq!(
        metadata,
        ResponseMetadata {
            compute_chars: 30,
            compute_tokens: 6,
            start_time: 10,
            total_time: 5,
            tokenization: 4,
            queue: 8,
            inference: 13,
        }
    );
}

#[test]
fn ranks_echo_the_text_when_asked() {
    let texts = labels(&["a", "b"]);
    let outcomes = vec![scored(&[-1.0, 5.0], 1, 1), scored(&[-2.0], 1, 1)];
    let (ranks, _) = rerank_response(&outcomes, &texts, true, 0, 0, 0);
    assert_eq!(
        ranks,
        vec![
            Rank { index: 0, text: Some("a".to_string()), score: (-1.0f32).to_bits() },
            Rank { index: 1, text: Some("b".to_string()), score: (-2.0f32).to_bits() },
        ]
    );
}

#[test]
fn ranking_needs_a_score_for_every_text() {
    let texts = labels(&["a", "b"]);
    assert!(check_ranking(&vec![scored(&[0.1], 1, 1), scored(&[0.2], 1, 1)], &texts));
    assert!(!check_ranking(&vec![scored(&[0.1], 1, 1)], &texts));
    assert!(!check_ranking(&vec![scored(&[0.1], 1, 1), scored(&[], 1, 1)], &texts));
    assert!(!check_ranking(&vec![scored(&[0.1], 1, 1), scored(&[f32::NAN], 1, 1)], &texts));
    assert!(check_ranking(&vec![scored(&[0.1, f32::NAN], 1, 1), scored(&[0.3], 1, 1)], &texts));
}

#[test]
fn embeddings_come_back_in_input_order() {
    let outcomes = vec![embedded(&[1.0, 2.0], 1), embedded(&[3.0], 2), embedded(&[], 3)];
    assert_eq!(embeddings_of(outcomes), vec![vec![1.0, 2.0], vec![3.0], vec![]]);
    assert_eq!(embeddings_of(Vec::<CallOutcome<Vec<f32>>>::new()), Vec::<Vec<f32>>::new());
}

#[test]
fn single_embedding_response_is_a_list_of_one() {
    let (embeddings, metadata) = embed_single(embedded(&[0.5, 0.25], 7), 9, 1, 3);
    assert_eq!(embeddings, vec![vec![0.5, 0.25]]);
    assert_eq!(
        metadata,
        ResponseMetadata {
            compute_chars: 9,
            compute_tokens: 7,
            start_time: 1,
            total_time: 2,
            tokenization: 4,
            queue: 6,
            inference: 8,
        }
    );
}

#[test]
fn batch_embedding_response_sums_tokens() {
    let (embeddings, metadata) =
        embed_batch(vec![embedded(&[1.0], 2), embedded(&[2.0], 5)], 10, 0, 7);
    assert_eq!(embeddings, vec![vec![1.0], vec![2.0]]);
    assert_eq!(metadata.compute_tokens, 7);
    assert_eq!(metadata.compute_chars, 10);
    assert_eq!(metadata.total_time, 7);
    assert_eq!(metadata.tokenization, 4);
}

#[test]
fn openai_response_numbers_the_embeddings() {
    let metadata = ResponseMetadata::new(10, 12, 0, 0, 0, 0, 0);
    let response =
        openai_response(vec![vec![1.0f32], vec![2.0], vec![3.0]], &"model".to_string(), &metadata);
    assert_eq!(response.object, "list");
    assert_eq!(response.model, "model");
    assert_eq!(response.usage, OpenAICompatUsage { prompt_tokens: 12, total_tokens: 12 });
    assert_eq!(
        response.data,
        vec![
            OpenAICompatEmbedding { object: "embedding", embedding: vec![1.0], index: 0 },
            OpenAICompatEmbedding { object: "embedding", embedding: vec![2.0], index: 1 },
            OpenAICompatEmbedding { object: "embedding", embedding: vec![3.0], index: 2 },
        ]
    );
}

#[test]
fn weaviate_response_reports_the_dimension() {
    let response = weaviate_response("t".to_string(), vec![0.5f32, 0.25, 0.125]);
    assert_eq!(response.text, "t");
    assert_eq!(response.vector, vec![0.5, 0.25, 0.125]);
    assert_eq!(response.dim, 3);
}
