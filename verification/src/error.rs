//! The closed set of error kinds and their two wire renderings.

use vstd::prelude::*;

verus! {

/// Why a request failed. Every failure is classified into one of these five
/// kinds before it reaches a client.
#[derive(Clone, Copy, Debug, PartialEq, Eq, Structural)]
pub enum ErrorType {
    /// The liveness or readiness probe failed.
    Unhealthy,
    /// Inference failed, or the model lacks the capability asked for.
    Backend,
    /// The admission budget was exhausted on a fail-fast path.
    Overloaded,
    /// The input could not be tokenized under the given constraints.
    Tokenizer,
    /// The client sent a request of the wrong shape or size.
    Validation,
}

/// The HTTP status that a kind is answered with.
pub open spec fn status_of(kind: ErrorType) -> u16 {
    match kind {
        ErrorType::Unhealthy => 503,
        ErrorType::Backend => 424,
        ErrorType::Overloaded => 429,
        ErrorType::Tokenizer => 422,
        ErrorType::Validation => 413,
    }
}

/// The name a kind goes by in both wire schemas.
pub open spec fn wire_name_of(kind: ErrorType) -> Seq<char> {
    match kind {
        ErrorType::Unhealthy => "unhealthy"@,
        ErrorType::Backend => "backend"@,
        ErrorType::Overloaded => "overloaded"@,
        ErrorType::Tokenizer => "tokenizer"@,
        ErrorType::Validation => "validation"@,
    }
}

impl ErrorType {
    /// The HTTP status code for this kind.
    pub fn status_code(&self) -> (code: u16)
        ensures
            code == status_of(*self),
    {
        match self {
            ErrorType::Unhealthy => 503,
            ErrorType::Backend => 424,
            ErrorType::Overloaded => 429,
            ErrorType::Tokenizer => 422,
            ErrorType::Validation => 413,
        }
    }

    /// The lower-case name written into the `error_type` and `type` fields.
    pub fn wire_name(&self) -> (name: &'static str)
        ensures
            name@ == wire_name_of(*self),
    {
        match self {
            ErrorType::Unhealthy => "unhealthy",
            ErrorType::Backend => "backend",
            ErrorType::Overloaded => "overloaded",
            ErrorType::Tokenizer => "tokenizer",
            ErrorType::Validation => "validation",
        }
    }
}

/// An error in the native schema: `{error, error_type}`.
#[derive(Debug, Clone, PartialEq, Eq)]
pub struct ErrorResponse {
    pub error: String,
    pub error_type: ErrorType,
}

/// An error in the OpenAI-compatible schema: `{message, type, code}`.
#[derive(Debug, Clone, PartialEq, Eq)]
pub struct OpenAICompatErrorResponse {
    pub message: String,
    pub code: u16,
    pub error_type: ErrorType,
}

/// The OpenAI-compatible rendering of a native error: the same message and
/// kind, and the kind's status as the numeric code.
pub open spec fn openai_rendering(value: ErrorResponse) -> OpenAICompatErrorResponse {
    OpenAICompatErrorResponse {
        message: value.error,
        code: status_of(value.error_type),
        error_type: value.error_type,
    }
}

impl ErrorResponse {
    /// An error of the given kind with the given message.
    pub fn new(message: &str, kind: ErrorType) -> (r: Self)
        ensures
            r.error@ == message@,
            r.error_type == kind,
    {
        ErrorResponse { error: message.to_string(), error_type: kind }
    }

    /// The status and body of the reply in the native schema.
    pub fn native_reply(self) -> (reply: (u16, ErrorResponse))
        ensures
            reply.0 == status_of(self.error_type),
            reply.1 == self,
    {
        (self.error_type.status_code(), self)
    }

    /// The status and body of the reply in the OpenAI-compatible schema.
    pub fn openai_reply(self) -> (reply: (u16, OpenAICompatErrorResponse))
        ensures
            reply.0 == status_of(self.error_type),
            reply.1 == openai_rendering(self),
    {
        let status = self.error_type.status_code();
        (status, OpenAICompatErrorResponse::from(self))
    }
}

impl From<ErrorResponse> for OpenAICompatErrorResponse {
    fn from(value: ErrorResponse) -> (r: Self) {
        let code = value.error_type.status_code();
        OpenAICompatErrorResponse { message: value.error, code, error_type: value.error_type }
    }
}

impl vstd::std_specs::convert::FromSpecImpl<ErrorResponse> for OpenAICompatErrorResponse {
    open spec fn obeys_from_spec() -> bool {
        true
    }

    open spec fn from_spec(value: ErrorResponse) -> Self {
        openai_rendering(value)
    }
}

/// Each of the five kinds has exactly the status the taxonomy gives it, and
/// no two kinds share one.
pub proof fn lemma_status_mapping()
    ensures
        status_of(ErrorType::Unhealthy) == 503,
        status_of(ErrorType::Backend) == 424,
        status_of(ErrorType::Overloaded) == 429,
        status_of(ErrorType::Tokenizer) == 422,
        status_of(ErrorType::Validation) == 413,
        forall|a: ErrorType, b: ErrorType| status_of(a) == status_of(b) ==> a == b,
{
}

/// Both renderings of an error carry its message and its kind unchanged, and
/// the OpenAI-compatible code is the status of the native reply.
pub proof fn lemma_renderings_agree(value: ErrorResponse)
    ensures
        openai_rendering(value).message == value.error,
        openai_rendering(value).error_type == value.error_type,
        openai_rendering(value).code == status_of(value.error_type),
        openai_rendering(value).code == 503 <==> value.error_type == ErrorType::Unhealthy,
        openai_rendering(value).code == 424 <==> value.error_type == ErrorType::Backend,
        openai_rendering(value).code == 429 <==> value.error_type == ErrorType::Overloaded,
        openai_rendering(value).code == 422 <==> value.error_type == ErrorType::Tokenizer,
        openai_rendering(value).code == 413 <==> value.error_type == ErrorType::Validation,
{
}

} // verus!
