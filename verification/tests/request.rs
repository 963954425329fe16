use serde_json::Value;
use text_embeddings_router::error::ErrorType;
use text_embeddings_router::grammar::InputError;
use text_embeddings_router::json::{JsonMember, JsonValue};
use text_embeddings_router::request::{
    EmbedRequest, EmbedWeaviateRequest, OpenAICompatRequest, PredictRequest, RerankRequest,
};
use text_embeddings_router::types::{default_normalize, Input, PredictInput, Sequence};

fn lift(value: Value) -> JsonValue {
    match value {
        Value::Null => JsonValue::Null,
        Value::Bool(flag) => JsonValue::Bool(flag),
        Value::Number(number) => JsonValue::Number(number.to_string()),
        Value::String(text) => JsonValue::Str(text),
        Value::Array(items) => JsonValue::Array(items.into_iter().map(lift).collect()),
        Value::Object(members) => JsonValue::Object(
            members.into_iter().map(|(name, value)| JsonMember { name, value: lift(value) }).collect(),
        ),
    }
}

fn body(text: &str) -> JsonValue {
    lift(serde_json::from_str(text).unwrap())
}

#[test]
fn normalize_defaults_to_true() {
    assert!(default_normalize());
}

#[test]
fn predict_request_defaults() {
    let request = PredictRequest::from_json(&body(r#"{"inputs":"x"}"#)).unwrap();
    assert_eq!(request.inputs, PredictInput::Single(Sequence::Single("x".to_string())));
    assert!(!request.truncate);
    assert!(!request.raw_scores);
}

#[test]
fn predict_request_with_flags_and_unknown_members() {
    let request = PredictRequest::from_json(&body(
        r#"{"raw_scores":true,"extra":[1,2],"inputs":[["a","b"]],"truncate":true}"#,
    ))
    .unwrap();
    assert_eq!(
        request.inputs,
        PredictInput::Batch(vec![Sequence::Pair("a".to_string(), "b".to_string())])
    );
    assert!(request.truncate);
    assert!(request.raw_scores);
}

#[test]
fn predict_request_errors() {
    assert_eq!(PredictRequest::from_json(&body(r#"{}"#)), Err(InputError::MissingField));
    assert_eq!(PredictRequest::from_json(&body(r#""x""#)), Err(InputError::InvalidType));
    assert_eq!(
        PredictRequest::from_json(&body(r#"{"inputs":["a","b","c"]}"#)),
        Err(InputError::InvalidLength(3))
    );
    assert_eq!(
        PredictRequest::from_json(&body(r#"{"inputs":"x","truncate":"yes"}"#)),
        Err(InputError::InvalidType)
    );
    assert_eq!(
        PredictRequest::from_json(&body(r#"{"inputs":"x","raw_scores":null}"#)),
        Err(InputError::InvalidType)
    );
}

#[test]
fn rerank_request_defaults() {
    let request =
        RerankRequest::from_json(&body(r#"{"query":"q","texts":["a","b"]}"#)).unwrap();
    assert_eq!(request.query, "q");
    assert_eq!(request.texts, vec!["a".to_string(), "b".to_string()]);
    assert!(!request.truncate);
    assert!(!request.raw_scores);
    assert!(!request.return_text);
}

#[test]
fn rerank_request_with_flags() {
    let request = RerankRequest::from_json(&body(
        r#"{"query":"q","texts":[],"truncate":true,"raw_scores":true,"return_text":true}"#,
    ))
    .unwrap();
    assert!(request.texts.is_empty());
    assert!(request.truncate);
    assert!(request.raw_scores);
    assert!(request.return_text);
}

#[test]
fn rerank_request_errors() {
    assert_eq!(
        RerankRequest::from_json(&body(r#"{"texts":["a"]}"#)),
        Err(InputError::MissingField)
    );
    assert_eq!(RerankRequest::from_json(&body(r#"{"query":"q"}"#)), Err(InputError::MissingField));
    assert_eq!(
        RerankRequest::from_json(&body(r#"{"query":1,"texts":["a"]}"#)),
        Err(InputError::InvalidType)
    );
    assert_eq!(
        RerankRequest::from_json(&body(r#"{"query":"q","texts":"a"}"#)),
        Err(InputError::InvalidType)
    );
    assert_eq!(
        RerankRequest::from_json(&body(r#"{"query":"q","texts":["a",2]}"#)),
        Err(InputError::InvalidType)
    );
    assert_eq!(
        RerankRequest::from_json(&body(r#"{"query":"q","texts":["a"],"return_text":0}"#)),
        Err(InputError::InvalidType)
    );
}

#[test]
fn embed_request_normalizes_by_default() {
    let request = EmbedRequest::from_json(&body(r#"{"inputs":["a","b"]}"#)).unwrap();
    assert_eq!(request.inputs, Input::Batch(vec!["a".to_string(), "b".to_string()]));
    assert!(!request.truncate);
    assert!(request.normalize);
    let request =
        EmbedRequest::from_json(&body(r#"{"inputs":"a","normalize":false,"truncate":true}"#))
            .unwrap();
    assert_eq!(request.inputs, Input::Single("a".to_string()));
    assert!(request.truncate);
    assert!(!request.normalize);
}

#[test]
fn embed_request_errors() {
    assert_eq!(EmbedRequest::from_json(&body(r#"{"input":"a"}"#)), Err(InputError::MissingField));
    assert_eq!(
        EmbedRequest::from_json(&body(r#"{"inputs":[["a"]]}"#)),
        Err(InputError::InvalidType)
    );
    assert_eq!(EmbedRequest::from_json(&body(r#"[]"#)), Err(InputError::InvalidType));
}

#[test]
fn openai_request_reads_optional_texts() {
    let request = OpenAICompatRequest::from_json(&body(r#"{"input":"a"}"#)).unwrap();
    assert_eq!(request.input, Input::Single("a".to_string()));
    assert_eq!(request.model, None);
    assert_eq!(request.user, None);
    let request = OpenAICompatRequest::from_json(&body(
        r#"{"input":["a"],"model":"m","user":null}"#,
    ))
    .unwrap();
    assert_eq!(request.input, Input::Batch(vec!["a".to_string()]));
    assert_eq!(request.model, Some("m".to_string()));
    assert_eq!(request.user, None);
    assert_eq!(
        OpenAICompatRequest::from_json(&body(r#"{"input":"a","user":3}"#)),
        Err(InputError::InvalidType)
    );
    assert_eq!(
        OpenAICompatRequest::from_json(&body(r#"{"inputs":"a"}"#)),
        Err(InputError::MissingField)
    );
}

#[test]
fn weaviate_request_defaults() {
    let request = EmbedWeaviateRequest::from_json(&body(r#"{"text":"t"}"#)).unwrap();
    assert_eq!(request.text, "t");
    assert!(!request.truncate);
    assert!(request.normalize);
}

#[test]
fn weaviate_body_that_is_no_request_is_a_validation_error() {
    let no_json = EmbedWeaviateRequest::from_body(None).unwrap_err();
    assert_eq!(no_json.error_type, ErrorType::Validation);
    assert_eq!(no_json.error, "Invalid request body");
    assert_eq!(no_json.error_type.status_code(), 413);
    for text in [r#"{}"#, r#"{"text":1}"#, r#"["t"]"#, r#"{"text":"t","normalize":"no"}"#] {
        let tree = body(text);
        let error = EmbedWeaviateRequest::from_body(Some(&tree)).unwrap_err();
        assert_eq!(error.error_type, ErrorType::Validation, "{}", text);
        assert_eq!(error.error, "Invalid request body");
    }
    let tree = body(r#"{"text":"t","truncate":true,"normalize":false}"#);
    let request = EmbedWeaviateRequest::from_body(Some(&tree)).unwrap();
    assert_eq!(request.text, "t");
    assert!(request.truncate);
    assert!(!request.normalize);
}

#[test]
fn first_of_two_members_with_one_name_counts() {
    let tree = JsonValue::Object(vec![
        JsonMember { name: "text".to_string(), value: JsonValue::Str("first".to_string()) },
        JsonMember { name: "text".to_string(), value: JsonValue::Str("second".to_string()) },
    ]);
    assert_eq!(EmbedWeaviateRequest::from_json(&tree).unwrap().text, "first");
}
