//! The request bodies of the endpoints, and how each is read from a JSON
//! object.
//!
//! A body is an object. Members that a request does not know are ignored.
//! Of two members with one name the first counts. The members of a request
//! are read in the order in which its type declares them, and the first
//! that cannot be read decides the error.

use crate::error::{ErrorResponse, ErrorType};
use crate::grammar::{
    all_strings, input_of, input_result_view, parse_input, parse_predict_input, predict_input_of,
    predict_result_view, string_texts, InputError,
};
use crate::json::{lemma_array_view, lemma_object_view, member_views, JsonMember, JsonValue, JsonView, MemberView};
use crate::types::{default_normalize, text_views, Input, InputView, PredictInput, PredictInputView};
use vstd::prelude::*;
use vstd::string::StringExecFns;

verus! {

/// The body of a classification request.
#[derive(Debug, Clone, PartialEq, Eq)]
pub struct PredictRequest {
    pub inputs: PredictInput,
    pub truncate: bool,
    pub raw_scores: bool,
}

/// The body of a rerank request.
#[derive(Debug, Clone, PartialEq, Eq)]
pub struct RerankRequest {
    pub query: String,
    pub texts: Vec<String>,
    pub truncate: bool,
    pub raw_scores: bool,
    pub return_text: bool,
}

/// The body of an embedding request.
#[derive(Debug, Clone, PartialEq, Eq)]
pub struct EmbedRequest {
    pub inputs: Input,
    pub truncate: bool,
    pub normalize: bool,
}

/// The body of an OpenAI-compatible embedding request. Such a request is
/// never truncated and always normalized.
#[derive(Debug, Clone, PartialEq, Eq)]
pub struct OpenAICompatRequest {
    pub input: Input,
    pub model: Option<String>,
    pub user: Option<String>,
}

/// The body of a Weaviate-compatible embedding request.
#[derive(Debug, Clone, PartialEq, Eq)]
pub struct EmbedWeaviateRequest {
    pub text: String,
    pub truncate: bool,
    pub normalize: bool,
}

/// The mathematical value of a [`PredictRequest`].
pub struct PredictRequestView {
    pub inputs: PredictInputView,
    pub truncate: bool,
    pub raw_scores: bool,
}

/// The mathematical value of a [`RerankRequest`].
pub struct RerankRequestView {
    pub query: Seq<char>,
    pub texts: Seq<Seq<char>>,
    pub truncate: bool,
    pub raw_scores: bool,
    pub return_text: bool,
}

/// The mathematical value of an [`EmbedRequest`].
pub struct EmbedRequestView {
    pub inputs: InputView,
    pub truncate: bool,
    pub normalize: bool,
}

/// The mathematical value of an [`OpenAICompatRequest`].
pub struct OpenAICompatRequestView {
    pub input: InputView,
    pub model: Option<Seq<char>>,
    pub user: Option<Seq<char>>,
}

/// The mathematical value of an [`EmbedWeaviateRequest`].
pub struct EmbedWeaviateRequestView {
    pub text: Seq<char>,
    pub truncate: bool,
    pub normalize: bool,
}

/// The view of a text that may be absent.
pub open spec fn optional_text_view(text: Option<String>) -> Option<Seq<char>> {
    match text {
        Some(text) => Some(text@),
        None => None,
    }
}

impl View for PredictRequest {
    type V = PredictRequestView;

    open spec fn view(&self) -> PredictRequestView {
        PredictRequestView {
            inputs: self.inputs@,
            truncate: self.truncate,
            raw_scores: self.raw_scores,
        }
    }
}

impl View for RerankRequest {
    type V = RerankRequestView;

    open spec fn view(&self) -> RerankRequestView {
        RerankRequestView {
            query: self.query@,
            texts: text_views(self.texts@),
            truncate: self.truncate,
            raw_scores: self.raw_scores,
            return_text: self.return_text,
        }
    }
}

impl View for EmbedRequest {
    type V = EmbedRequestView;

    open spec fn view(&self) -> EmbedRequestView {
        EmbedRequestView { inputs: self.inputs@, truncate: self.truncate, normalize: self.normalize }
    }
}

impl View for OpenAICompatRequest {
    type V = OpenAICompatRequestView;

    open spec fn view(&self) -> OpenAICompatRequestView {
        OpenAICompatRequestView {
            input: self.input@,
            model: optional_text_view(self.model),
            user: optional_text_view(self.user),
        }
    }
}

impl View for EmbedWeaviateRequest {
    type V = EmbedWeaviateRequestView;

    open spec fn view(&self) -> EmbedWeaviateRequestView {
        EmbedWeaviateRequestView {
            text: self.text@,
            truncate: self.truncate,
            normalize: self.normalize,
        }
    }
}

/// The value of the first member with the given name.
pub open spec fn member_named(members: Seq<MemberView>, name: Seq<char>) -> Option<JsonView>
    decreases members.len(),
{
    if members.len() == 0 {
        None
    } else if members[0].name == name {
        Some(members[0].value)
    } else {
        member_named(members.drop_first(), name)
    }
}

/// The value of a member that a request must have.
pub open spec fn required_member(members: Seq<MemberView>, name: Seq<char>) -> Result<
    JsonView,
    InputError,
> {
    match member_named(members, name) {
        Some(value) => Ok(value),
        None => Err(InputError::MissingField),
    }
}

/// A flag of a request: the default where the member is absent, the
/// member's value where it is a boolean.
pub open spec fn flag_member(members: Seq<MemberView>, name: Seq<char>, default: bool) -> Result<
    bool,
    InputError,
> {
    match member_named(members, name) {
        None => Ok(default),
        Some(JsonView::Bool(flag)) => Ok(flag),
        Some(_) => Err(InputError::InvalidType),
    }
}

/// A text that a request must have.
pub open spec fn text_member(members: Seq<MemberView>, name: Seq<char>) -> Result<
    Seq<char>,
    InputError,
> {
    match member_named(members, name) {
        None => Err(InputError::MissingField),
        Some(JsonView::Str(text)) => Ok(text),
        Some(_) => Err(InputError::InvalidType),
    }
}

/// A text that a request may have: absent or null is no text.
pub open spec fn optional_text_member(members: Seq<MemberView>, name: Seq<char>) -> Result<
    Option<Seq<char>>,
    InputError,
> {
    match member_named(members, name) {
        None => Ok(None),
        Some(JsonView::Null) => Ok(None),
        Some(JsonView::Str(text)) => Ok(Some(text)),
        Some(_) => Err(InputError::InvalidType),
    }
}

/// A list of texts that a request must have.
pub open spec fn texts_member(members: Seq<MemberView>, name: Seq<char>) -> Result<
    Seq<Seq<char>>,
    InputError,
> {
    match member_named(members, name) {
        None => Err(InputError::MissingField),
        Some(JsonView::Array(items)) => if all_strings(items) {
            Ok(string_texts(items))
        } else {
            Err(InputError::InvalidType)
        },
        Some(_) => Err(InputError::InvalidType),
    }
}

/// The classification request that a body stands for.
pub open spec fn predict_request_of(body: JsonView) -> Result<PredictRequestView, InputError> {
    match body {
        JsonView::Object(members) => match required_member(members, "inputs"@) {
            Err(error) => Err(error),
            Ok(value) => match predict_input_of(value) {
                Err(error) => Err(error),
                Ok(inputs) => match flag_member(members, "truncate"@, false) {
                    Err(error) => Err(error),
                    Ok(truncate) => match flag_member(members, "raw_scores"@, false) {
                        Err(error) => Err(error),
                        Ok(raw_scores) => Ok(PredictRequestView { inputs, truncate, raw_scores }),
                    },
                },
            },
        },
        _ => Err(InputError::InvalidType),
    }
}

/// The rerank request that a body stands for.
pub open spec fn rerank_request_of(body: JsonView) -> Result<RerankRequestView, InputError> {
    match body {
        JsonView::Object(members) => match text_member(members, "query"@) {
            Err(error) => Err(error),
            Ok(query) => match texts_member(members, "texts"@) {
                Err(error) => Err(error),
                Ok(texts) => match flag_member(members, "truncate"@, false) {
                    Err(error) => Err(error),
                    Ok(truncate) => match flag_member(members, "raw_scores"@, false) {
                        Err(error) => Err(error),
                        Ok(raw_scores) => match flag_member(members, "return_text"@, false) {
                            Err(error) => Err(error),
                            Ok(return_text) => Ok(
                                RerankRequestView { query, texts, truncate, raw_scores, return_text },
                            ),
                        },
                    },
                },
            },
        },
        _ => Err(InputError::InvalidType),
    }
}

/// The embedding request that a body stands for.
pub open spec fn embed_request_of(body: JsonView) -> Result<EmbedRequestView, InputError> {
    match body {
        JsonView::Object(members) => match required_member(members, "inputs"@) {
            Err(error) => Err(error),
            Ok(value) => match input_of(value) {
                Err(error) => Err(error),
                Ok(inputs) => match flag_member(members, "truncate"@, false) {
                    Err(error) => Err(error),
                    Ok(truncate) => match flag_member(members, "normalize"@, true) {
                        Err(error) => Err(error),
                        Ok(normalize) => Ok(EmbedRequestView { inputs, truncate, normalize }),
                    },
                },
            },
        },
        _ => Err(InputError::InvalidType),
    }
}

/// The OpenAI-compatible request that a body stands for.
pub open spec fn openai_request_of(body: JsonView) -> Result<OpenAICompatRequestView, InputError> {
    match body {
        JsonView::Object(members) => match required_member(members, "input"@) {
            Err(error) => Err(error),
            Ok(value) => match input_of(value) {
                Err(error) => Err(error),
                Ok(input) => match optional_text_member(members, "model"@) {
                    Err(error) => Err(error),
                    Ok(model) => match optional_text_member(members, "user"@) {
                        Err(error) => Err(error),
                        Ok(user) => Ok(OpenAICompatRequestView { input, model, user }),
                    },
                },
            },
        },
        _ => Err(InputError::InvalidType),
    }
}

/// The Weaviate-compatible request that a body stands for.
pub open spec fn weaviate_request_of(body: JsonView) -> Result<
    EmbedWeaviateRequestView,
    InputError,
> {
    match body {
        JsonView::Object(members) => match text_member(members, "text"@) {
            Err(error) => Err(error),
            Ok(text) => match flag_member(members, "truncate"@, false) {
                Err(error) => Err(error),
                Ok(truncate) => match flag_member(members, "normalize"@, true) {
                    Err(error) => Err(error),
                    Ok(normalize) => Ok(EmbedWeaviateRequestView { text, truncate, normalize }),
                },
            },
        },
        _ => Err(InputError::InvalidType),
    }
}

/// The message that answers a body which is no request.
pub open spec fn invalid_body_message() -> Seq<char> {
    "Invalid request body"@
}

/// The first member with the given name.
fn find_member<'a>(members: &'a Vec<JsonMember>, name: &str) -> (found: Option<&'a JsonValue>)
    ensures
        match found {
            Some(value) => member_named(member_views(members@), name@) == Some(value@),
            None => member_named(member_views(members@), name@) is None,
        },
{
    let key = String::from_str(name);
    let ghost views = member_views(members@);
    let mut i: usize = 0;
    assert(views.skip(0) =~= views);
    while i < members.len()
        invariant
            0 <= i <= members@.len(),
            views == member_views(members@),
            key@ == name@,
            member_named(views, name@) == member_named(views.skip(i as int), name@),
        decreases members@.len() - i,
    {
        assert(views.skip(i as int).drop_first() =~= views.skip(i + 1));
        assert(views.skip(i as int)[0] == members@[i as int]@);
        if members[i].name == key {
            return Some(&members[i].value);
        }
        i += 1;
    }
    None
}

/// Reads a flag.
fn read_flag(members: &Vec<JsonMember>, name: &str, default: bool) -> (r: Result<bool, InputError>)
    ensures
        r == flag_member(member_views(members@), name@, default),
{
    match find_member(members, name) {
        None => Ok(default),
        Some(JsonValue::Bool(flag)) => Ok(*flag),
        Some(_) => Err(InputError::InvalidType),
    }
}

/// Reads a text that must be there.
fn read_text(members: &Vec<JsonMember>, name: &str) -> (r: Result<String, InputError>)
    ensures
        match r {
            Ok(text) => text_member(member_views(members@), name@) == Ok::<Seq<char>, InputError>(
                text@,
            ),
            Err(error) => text_member(member_views(members@), name@) == Err::<
                Seq<char>,
                InputError,
            >(error),
        },
{
    match find_member(members, name) {
        None => Err(InputError::MissingField),
        Some(JsonValue::Str(text)) => Ok(text.clone()),
        Some(_) => Err(InputError::InvalidType),
    }
}

/// Reads a text that may be absent.
fn read_optional_text(members: &Vec<JsonMember>, name: &str) -> (r: Result<
    Option<String>,
    InputError,
>)
    ensures
        match r {
            Ok(text) => optional_text_member(member_views(members@), name@) == Ok::<
                Option<Seq<char>>,
                InputError,
            >(optional_text_view(text)),
            Err(error) => optional_text_member(member_views(members@), name@) == Err::<
                Option<Seq<char>>,
                InputError,
            >(error),
        },
{
    match find_member(members, name) {
        None => Ok(None),
        Some(JsonValue::Null) => Ok(None),
        Some(JsonValue::Str(text)) => Ok(Some(text.clone())),
        Some(_) => Err(InputError::InvalidType),
    }
}

/// Reads a list of texts that must be there.
fn read_texts(members: &Vec<JsonMember>, name: &str) -> (r: Result<Vec<String>, InputError>)
    ensures
        match r {
            Ok(texts) => texts_member(member_views(members@), name@) == Ok::<
                Seq<Seq<char>>,
                InputError,
            >(text_views(texts@)),
            Err(error) => texts_member(member_views(members@), name@) == Err::<
                Seq<Seq<char>>,
                InputError,
            >(error),
        },
{
    match find_member(members, name) {
        None => Err(InputError::MissingField),
        Some(value) => {
            // A list of texts is read as a batch of embedding inputs is.
            match value {
                JsonValue::Array(_) => match parse_input(value) {
                    Ok(Input::Batch(texts)) => Ok(texts),
                    Ok(Input::Single(_)) => Err(InputError::InvalidType),
                    Err(error) => Err(error),
                },
                _ => Err(InputError::InvalidType),
            }
        },
    }
}

impl PredictRequest {
    /// Reads the body of a classification request:
    /// `{inputs, truncate?: false, raw_scores?: false}`.
    pub fn from_json(body: &JsonValue) -> (r: Result<Self, InputError>)
        ensures
            match r {
                Ok(request) => predict_request_of(body@) == Ok::<PredictRequestView, InputError>(
                    request@,
                ) && request.inputs@.wf(),
                Err(error) => predict_request_of(body@) == Err::<PredictRequestView, InputError>(
                    error,
                ),
            },
    {
        match body {
            JsonValue::Object(members) => {
                proof {
                    lemma_object_view(*body);
                }
                let value = match find_member(members, "inputs") {
                    Some(value) => value,
                    None => {
                        return Err(InputError::MissingField);
                    },
                };
                let inputs = match parse_predict_input(value) {
                    Ok(inputs) => inputs,
                    Err(error) => {
                        return Err(error);
                    },
                };
                let truncate = match read_flag(members, "truncate", false) {
                    Ok(flag) => flag,
                    Err(error) => {
                        return Err(error);
                    },
                };
                let raw_scores = match read_flag(members, "raw_scores", false) {
                    Ok(flag) => flag,
                    Err(error) => {
                        return Err(error);
                    },
                };
                Ok(PredictRequest { inputs, truncate, raw_scores })
            },
            _ => Err(InputError::InvalidType),
        }
    }
}

impl RerankRequest {
    /// Reads the body of a rerank request:
    /// `{query, texts, truncate?: false, raw_scores?: false, return_text?: false}`.
    pub fn from_json(body: &JsonValue) -> (r: Result<Self, InputError>)
        ensures
            match r {
                Ok(request) => rerank_request_of(body@) == Ok::<RerankRequestView, InputError>(
                    request@,
                ),
                Err(error) => rerank_request_of(body@) == Err::<RerankRequestView, InputError>(
                    error,
                ),
            },
    {
        match body {
            JsonValue::Object(members) => {
                proof {
                    lemma_object_view(*body);
                }
                let query = match read_text(members, "query") {
                    Ok(text) => text,
                    Err(error) => {
                        return Err(error);
                    },
                };
                let texts = match read_texts(members, "texts") {
                    Ok(texts) => texts,
                    Err(error) => {
                        return Err(error);
                    },
                };
                let truncate = match read_flag(members, "truncate", false) {
                    Ok(flag) => flag,
                    Err(error) => {
                        return Err(error);
                    },
                };
                let raw_scores = match read_flag(members, "raw_scores", false) {
                    Ok(flag) => flag,
                    Err(error) => {
                        return Err(error);
                    },
                };
                let return_text = match read_flag(members, "return_text", false) {
                    Ok(flag) => flag,
                    Err(error) => {
                        return Err(error);
                    },
                };
                Ok(RerankRequest { query, texts, truncate, raw_scores, return_text })
            },
            _ => Err(InputError::InvalidType),
        }
    }
}

impl EmbedRequest {
    /// Reads the body of an embedding request:
    /// `{inputs, truncate?: false, normalize?: true}`.
    pub fn from_json(body: &JsonValue) -> (r: Result<Self, InputError>)
        ensures
            match r {
                Ok(request) => embed_request_of(body@) == Ok::<EmbedRequestView, InputError>(
                    request@,
                ),
                Err(error) => embed_request_of(body@) == Err::<EmbedRequestView, InputError>(error),
            },
    {
        match body {
            JsonValue::Object(members) => {
                proof {
                    lemma_object_view(*body);
                }
                let value = match find_member(members, "inputs") {
                    Some(value) => value,
                    None => {
                        return Err(InputError::MissingField);
                    },
                };
                let inputs = match parse_input(value) {
                    Ok(inputs) => inputs,
                    Err(error) => {
                        return Err(error);
                    },
                };
                let truncate = match read_flag(members, "truncate", false) {
                    Ok(flag) => flag,
                    Err(error) => {
                        return Err(error);
                    },
                };
                let normalize = match read_flag(members, "normalize", default_normalize()) {
                    Ok(flag) => flag,
                    Err(error) => {
                        return Err(error);
                    },
                };
                Ok(EmbedRequest { inputs, truncate, normalize })
            },
            _ => Err(InputError::InvalidType),
        }
    }
}

impl OpenAICompatRequest {
    /// Reads the body of an OpenAI-compatible embedding request:
    /// `{input, model?, user?}`.
    pub fn from_json(body: &JsonValue) -> (r: Result<Self, InputError>)
        ensures
            match r {
                Ok(request) => openai_request_of(body@) == Ok::<
                    OpenAICompatRequestView,
                    InputError,
                >(request@),
                Err(error) => openai_request_of(body@) == Err::<
                    OpenAICompatRequestView,
                    InputError,
                >(error),
            },
    {
        match body {
            JsonValue::Object(members) => {
                proof {
                    lemma_object_view(*body);
                }
                let value = match find_member(members, "input") {
                    Some(value) => value,
                    None => {
                        return Err(InputError::MissingField);
                    },
                };
                let input = match parse_input(value) {
                    Ok(input) => input,
                    Err(error) => {
                        return Err(error);
                    },
                };
                let model = match read_optional_text(members, "model") {
                    Ok(text) => text,
                    Err(error) => {
                        return Err(error);
                    },
                };
                let user = match read_optional_text(members, "user") {
                    Ok(text) => text,
                    Err(error) => {
                        return Err(error);
                    },
                };
                Ok(OpenAICompatRequest { input, model, user })
            },
            _ => Err(InputError::InvalidType),
        }
    }
}

impl EmbedWeaviateRequest {
    /// Reads the body of a Weaviate-compatible embedding request:
    /// `{text, truncate?: false, normalize?: true}`.
    pub fn from_json(body: &JsonValue) -> (r: Result<Self, InputError>)
        ensures
            match r {
                Ok(request) => weaviate_request_of(body@) == Ok::<
                    EmbedWeaviateRequestView,
                    InputError,
                >(request@),
                Err(error) => weaviate_request_of(body@) == Err::<
                    EmbedWeaviateRequestView,
                    InputError,
                >(error),
            },
    {
        match body {
            JsonValue::Object(members) => {
                proof {
                    lemma_object_view(*body);
                }
                let text = match read_text(members, "text") {
                    Ok(text) => text,
                    Err(error) => {
                        return Err(error);
                    },
                };
                let truncate = match read_flag(members, "truncate", false) {
                    Ok(flag) => flag,
                    Err(error) => {
                        return Err(error);
                    },
                };
                let normalize = match read_flag(members, "normalize", default_normalize()) {
                    Ok(flag) => flag,
                    Err(error) => {
                        return Err(error);
                    },
                };
                Ok(EmbedWeaviateRequest { text, truncate, normalize })
            },
            _ => Err(InputError::InvalidType),
        }
    }

    /// Reads the body of a Weaviate-compatible request from what the bytes
    /// of the body decoded to, `None` where they are no JSON. A body that is
    /// no request is a validation error, found before any inference work.
    pub fn from_body(body: Option<&JsonValue>) -> (r: Result<Self, ErrorResponse>)
        ensures
            match r {
                Ok(request) => body is Some && weaviate_request_of(body->Some_0@) == Ok::<
                    EmbedWeaviateRequestView,
                    InputError,
                >(request@),
                Err(error) => (body is None || weaviate_request_of(body->Some_0@) is Err)
                    && error.error_type == ErrorType::Validation && error.error@
                    == invalid_body_message(),
            },
    {
        match body {
            Some(value) => match EmbedWeaviateRequest::from_json(value) {
                Ok(request) => Ok(request),
                Err(_) => Err(ErrorResponse::new("Invalid request body", ErrorType::Validation)),
            },
            None => Err(ErrorResponse::new("Invalid request body", ErrorType::Validation)),
        }
    }
}

} // verus!
