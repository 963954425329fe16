use serde_json::Value;
use text_embeddings_router::error::ErrorType;
use text_embeddings_router::grammar::{
    input_expected, parse_input, parse_predict_input, parse_sequence, predict_input_expected,
    sequence_from_vec, InputError,
};
use text_embeddings_router::json::{JsonMember, JsonValue};
use text_embeddings_router::types::{Input, PredictInput, Sequence};

fn tree(value: Value) -> JsonValue {
    match value {
        Value::Null => JsonValue::Null,
        Value::Bool(flag) => JsonValue::Bool(flag),
        Value::Number(number) => JsonValue::Number(number.to_string()),
        Value::String(text) => JsonValue::Str(text),
        Value::Array(items) => JsonValue::Array(items.into_iter().map(tree).collect()),
        Value::Object(members) => JsonValue::Object(
            members.into_iter().map(|(name, value)| JsonMember { name, value: tree(value) }).collect(),
        ),
    }
}

fn inputs_of(body: &str) -> JsonValue {
    let parsed: Value = serde_json::from_str(body).unwrap();
    match tree(parsed) {
        JsonValue::Object(members) => {
            members.into_iter().find(|member| member.name == "inputs").unwrap().value
        }
        other => panic!("not an object: {:?}", other),
    }
}

fn single(text: &str) -> Sequence {
    Sequence::Single(text.to_string())
}

fn pair(first: &str, second: &str) -> Sequence {
    Sequence::Pair(first.to_string(), second.to_string())
}

#[test]
fn string_is_a_single_sequence() {
    let inputs = inputs_of(r#"{"inputs":"x"}"#);
    assert_eq!(parse_predict_input(&inputs), Ok(PredictInput::Single(single("x"))));
}

#[test]
fn flat_array_of_two_is_a_pair() {
    let inputs = inputs_of(r#"{"inputs":["a","b"]}"#);
    assert_eq!(parse_predict_input(&inputs), Ok(PredictInput::Single(pair("a", "b"))));
}

#[test]
fn flat_array_of_one_is_a_single_sequence() {
    let inputs = inputs_of(r#"{"inputs":["a"]}"#);
    assert_eq!(parse_predict_input(&inputs), Ok(PredictInput::Single(single("a"))));
}

#[test]
fn flat_array_of_three_is_invalid_length_three() {
    let inputs = inputs_of(r#"{"inputs":["a","b","c"]}"#);
    assert_eq!(parse_predict_input(&inputs), Err(InputError::InvalidLength(3)));
}

#[test]
fn flat_array_of_five_is_reported_as_three() {
    let inputs = inputs_of(r#"{"inputs":["a","b","c","d","e"]}"#);
    assert_eq!(parse_predict_input(&inputs), Err(InputError::InvalidLength(3)));
}

#[test]
fn flat_array_with_a_third_of_any_type_is_invalid_length_three() {
    let inputs = inputs_of(r#"{"inputs":["a","b",7]}"#);
    assert_eq!(parse_predict_input(&inputs), Err(InputError::InvalidLength(3)));
}

#[test]
fn flat_array_with_a_second_that_is_no_string_is_invalid_type() {
    let inputs = inputs_of(r#"{"inputs":["a",1]}"#);
    assert_eq!(parse_predict_input(&inputs), Err(InputError::InvalidType));
    let inputs = inputs_of(r#"{"inputs":["a",["b"],"c"]}"#);
    assert_eq!(parse_predict_input(&inputs), Err(InputError::InvalidType));
}

#[test]
fn array_of_arrays_is_a_batch_in_order() {
    let inputs = inputs_of(r#"{"inputs":[["a"],["a","b"]]}"#);
    assert_eq!(
        parse_predict_input(&inputs),
        Ok(PredictInput::Batch(vec![single("a"), pair("a", "b")]))
    );
}

#[test]
fn batch_item_of_three_fails_the_whole_batch() {
    let inputs = inputs_of(r#"{"inputs":[["a","b","c"]]}"#);
    assert_eq!(parse_predict_input(&inputs), Err(InputError::InvalidLength(3)));
    let inputs = inputs_of(r#"{"inputs":[["a"],["b","c"],["d","e","f","g"],["h"]]}"#);
    assert_eq!(parse_predict_input(&inputs), Err(InputError::InvalidLength(4)));
}

#[test]
fn empty_array_is_invalid_length_zero() {
    let inputs = inputs_of(r#"{"inputs":[]}"#);
    assert_eq!(parse_predict_input(&inputs), Err(InputError::InvalidLength(0)));
}

#[test]
fn empty_batch_item_is_invalid_length_zero() {
    let inputs = inputs_of(r#"{"inputs":[[]]}"#);
    assert_eq!(parse_predict_input(&inputs), Err(InputError::InvalidLength(0)));
    let inputs = inputs_of(r#"{"inputs":[["a"],[]]}"#);
    assert_eq!(parse_predict_input(&inputs), Err(InputError::InvalidLength(0)));
}

#[test]
fn first_element_of_another_type_is_invalid_type() {
    for body in [
        r#"{"inputs":[1,"a"]}"#,
        r#"{"inputs":[null]}"#,
        r#"{"inputs":[true]}"#,
        r#"{"inputs":[{"a":"b"}]}"#,
        r#"{"inputs":[[1]]}"#,
        r#"{"inputs":[["a",2]]}"#,
    ] {
        assert_eq!(parse_predict_input(&inputs_of(body)), Err(InputError::InvalidType), "{}", body);
    }
}

#[test]
fn top_level_value_of_another_type_is_invalid_type() {
    for body in [
        r#"{"inputs":1}"#,
        r#"{"inputs":null}"#,
        r#"{"inputs":false}"#,
        r#"{"inputs":{"a":"b"}}"#,
    ] {
        assert_eq!(parse_predict_input(&inputs_of(body)), Err(InputError::InvalidType), "{}", body);
    }
}

#[test]
fn later_batch_item_that_is_no_array_of_strings_is_invalid_type() {
    let inputs = inputs_of(r#"{"inputs":[["a"],"b"]}"#);
    assert_eq!(parse_predict_input(&inputs), Err(InputError::InvalidType));
    let inputs = inputs_of(r#"{"inputs":[["a"],["b",3]]}"#);
    assert_eq!(parse_predict_input(&inputs), Err(InputError::InvalidType));
}

#[test]
fn first_failing_batch_item_decides_the_error() {
    let inputs = inputs_of(r#"{"inputs":[["a"],["b","c","d"],7]}"#);
    assert_eq!(parse_predict_input(&inputs), Err(InputError::InvalidLength(3)));
    let inputs = inputs_of(r#"{"inputs":[["a"],7,["b","c","d"]]}"#);
    assert_eq!(parse_predict_input(&inputs), Err(InputError::InvalidType));
}

#[test]
fn large_batch_keeps_every_item_in_order() {
    let items: Vec<JsonValue> = (0..100)
        .map(|i| {
            if i % 2 == 0 {
                JsonValue::Array(vec![JsonValue::Str(format!("t{}", i))])
            } else {
                JsonValue::Array(vec![
                    JsonValue::Str(format!("t{}", i)),
                    JsonValue::Str(format!("u{}", i)),
                ])
            }
        })
        .collect();
    let expected: Vec<Sequence> = (0..100)
        .map(|i| {
            if i % 2 == 0 {
                single(&format!("t{}", i))
            } else {
                pair(&format!("t{}", i), &format!("u{}", i))
            }
        })
        .collect();
    assert_eq!(parse_predict_input(&JsonValue::Array(items)), Ok(PredictInput::Batch(expected)));
}

#[test]
fn sequence_from_texts_accepts_one_or_two() {
    assert_eq!(sequence_from_vec(vec!["a".to_string()]), Ok(single("a")));
    assert_eq!(sequence_from_vec(vec!["a".to_string(), "b".to_string()]), Ok(pair("a", "b")));
    assert_eq!(sequence_from_vec(vec![]), Err(InputError::InvalidLength(0)));
    assert_eq!(
        sequence_from_vec(vec!["a".to_string(), "b".to_string(), "c".to_string()]),
        Err(InputError::InvalidLength(3))
    );
}

#[test]
fn batch_item_is_an_array_of_one_or_two_strings() {
    assert_eq!(parse_sequence(&tree(serde_json::from_str(r#"["a"]"#).unwrap())), Ok(single("a")));
    assert_eq!(
        parse_sequence(&tree(serde_json::from_str(r#"["a","b"]"#).unwrap())),
        Ok(pair("a", "b"))
    );
    assert_eq!(
        parse_sequence(&tree(serde_json::from_str(r#""a""#).unwrap())),
        Err(InputError::InvalidType)
    );
}

#[test]
fn embedding_input_is_a_string_or_an_array_of_strings() {
    assert_eq!(parse_input(&inputs_of(r#"{"inputs":"x"}"#)), Ok(Input::Single("x".to_string())));
    assert_eq!(
        parse_input(&inputs_of(r#"{"inputs":["a","b","c"]}"#)),
        Ok(Input::Batch(vec!["a".to_string(), "b".to_string(), "c".to_string()]))
    );
    assert_eq!(parse_input(&inputs_of(r#"{"inputs":[]}"#)), Ok(Input::Batch(vec![])));
}

#[test]
fn embedding_input_of_another_type_is_invalid_type() {
    for body in [
        r#"{"inputs":1}"#,
        r#"{"inputs":["a",1]}"#,
        r#"{"inputs":[["a"]]}"#,
        r#"{"inputs":null}"#,
        r#"{"inputs":{"a":"b"}}"#,
    ] {
        assert_eq!(parse_input(&inputs_of(body)), Err(InputError::InvalidType), "{}", body);
    }
}

#[test]
fn input_errors_are_validation_errors_that_say_what_is_accepted() {
    let error = InputError::InvalidLength(3).to_response(predict_input_expected());
    assert_eq!(error.error_type, ErrorType::Validation);
    assert_eq!(
        error.error,
        "invalid length 3, expected a string, a pair of strings [string, string] \
         or a batch of mixed strings and pairs [[string], [string, string], ...]"
    );
    let error = InputError::InvalidType.to_response(input_expected());
    assert_eq!(error.error_type, ErrorType::Validation);
    assert_eq!(error.error, "invalid type, expected a string or a batch of strings [string, ...]");
    let error = InputError::MissingField.to_response(input_expected());
    assert_eq!(error.error_type, ErrorType::Validation);
    assert_eq!(error.error, "missing field");
    assert_eq!(error.error_type.status_code(), 413);
}
