//! What can go wrong in a streaming session.

use vstd::prelude::*;

verus! {

/// The part of a choice that a stream never delivered.
#[derive(Debug, Clone, Copy, PartialEq, Eq, Structural)]
pub enum MissingPart {
    /// No fragment of the choice carried a role.
    Role,
    /// Function-call arguments arrived, but never a function name.
    FunctionName,
    /// A function name arrived, but never any arguments.
    FunctionArguments,
}

/// Failures that arise on this side of the connection.
#[derive(Debug, Clone)]
pub enum InternalError {
    /// The client is not configured; the text says what is missing.
    ConfigurationError(String),
    /// The request could not be built or sent; the text is the transport's report.
    RequestBuildError(String),
    /// The event stream failed; the text is the transport's report.
    EventSourceError(String),
    /// A payload was neither an update nor an error envelope; the text is the payload.
    SerializationError(String),
    /// Reconstruction was asked for before any update had arrived.
    NoDeltasReceived,
    /// The choice with this index cannot be completed from what arrived.
    IncompleteReconstruction(i64, MissingPart),
    /// The token counts of a chat do not fit the accounting's integers.
    TokenCountOverflow,
}

/// Mathematical view of an [`InternalError`].
pub enum InternalErrorView {
    ConfigurationError(Seq<char>),
    RequestBuildError(Seq<char>),
    EventSourceError(Seq<char>),
    SerializationError(Seq<char>),
    NoDeltasReceived,
    IncompleteReconstruction(i64, MissingPart),
    TokenCountOverflow,
}

impl DeepView for InternalError {
    type V = InternalErrorView;

    open spec fn deep_view(&self) -> InternalErrorView {
        match self {
            InternalError::ConfigurationError(text) => InternalErrorView::ConfigurationError(
                text@,
            ),
            InternalError::RequestBuildError(text) => InternalErrorView::RequestBuildError(text@),
            InternalError::EventSourceError(text) => InternalErrorView::EventSourceError(text@),
            InternalError::SerializationError(text) => InternalErrorView::SerializationError(
                text@,
            ),
            InternalError::NoDeltasReceived => InternalErrorView::NoDeltasReceived,
            InternalError::IncompleteReconstruction(index, part) =>
                InternalErrorView::IncompleteReconstruction(*index, *part),
            InternalError::TokenCountOverflow => InternalErrorView::TokenCountOverflow,
        }
    }
}

/// A well-formed rejection sent by the remote service.
#[derive(Debug, Clone)]
pub enum OpenAIError {
    ApiError { message: String, error_type: String, param: Option<String>, code: Option<String> },
}

/// Mathematical view of an [`OpenAIError`].
pub struct ApiErrorView {
    pub message: Seq<char>,
    pub error_type: Seq<char>,
    pub param: Option<Seq<char>>,
    pub code: Option<Seq<char>>,
}

impl DeepView for OpenAIError {
    type V = ApiErrorView;

    open spec fn deep_view(&self) -> ApiErrorView {
        match self {
            OpenAIError::ApiError { message, error_type, param, code } => ApiErrorView {
                message: message@,
                error_type: error_type@,
                param: param.deep_view(),
                code: code.deep_view(),
            },
        }
    }
}

/// Any failure of a session.
#[derive(Debug, Clone)]
pub enum Error {
    Internal(InternalError),
    OpenAI(OpenAIError),
}

/// Mathematical view of an [`Error`].
pub enum ErrorView {
    Internal(InternalErrorView),
    OpenAI(ApiErrorView),
}

impl DeepView for Error {
    type V = ErrorView;

    open spec fn deep_view(&self) -> ErrorView {
        match self {
            Error::Internal(e) => ErrorView::Internal(e.deep_view()),
            Error::OpenAI(e) => ErrorView::OpenAI(e.deep_view()),
        }
    }
}

/// Result of an operation of this crate.
pub type UtilsResult<T> = Result<T, Error>;

} // verus!
