//! Errors of the gateway and the bodies of its error replies.
use vstd::prelude::*;

verus! {

/// The reply to an upload whose extension is not accepted.
#[derive(Debug)]
pub struct UnsupportedFileError {
    pub error: String,
    pub file_type: String,
}

/// The reply to a removal of a file id that is not in the cache.
#[derive(Debug)]
pub struct RemoveFileError {
    pub error: String,
    pub file_id: String,
}

/// The reply to an upload that could not be read.
#[derive(Debug)]
pub struct UploadFileError {
    pub error: String,
    pub file_name: String,
}

/// The reply to a removal of a session id that is not in the store.
#[derive(Debug)]
pub struct RemoveSessionError {
    pub error: String,
    pub session_id: String,
}

#[derive(Debug)]
pub enum AppError {
    /// No model is loaded, or loading one failed.
    ModelNotLoaded(String),
    /// An unknown model name or file extension, or a malformed body.
    InvalidRequest(String),
    /// The model failed while generating.
    GenerationFailed(String),
    /// The model could not tokenize its input.
    TokenizationError(String),
    /// A file id or session id that is not stored.
    NotFound(String),
}

impl AppError {
    /// The HTTP status that reports this error.
    pub fn status_code(&self) -> (r: u16)
        ensures
            r == match self {
                AppError::ModelNotLoaded(_) => 503u16,
                AppError::InvalidRequest(_) => 400u16,
                AppError::GenerationFailed(_) => 500u16,
                AppError::TokenizationError(_) => 400u16,
                AppError::NotFound(_) => 400u16,
            },
    {
        match self {
            AppError::ModelNotLoaded(_) => 503,
            AppError::InvalidRequest(_) => 400,
            AppError::GenerationFailed(_) => 500,
            AppError::TokenizationError(_) => 400,
            AppError::NotFound(_) => 400,
        }
    }

    /// The message carried by the error.
    pub fn message(&self) -> (r: &String)
        ensures
            r == match self {
                AppError::ModelNotLoaded(m) => m,
                AppError::InvalidRequest(m) => m,
                AppError::GenerationFailed(m) => m,
                AppError::TokenizationError(m) => m,
                AppError::NotFound(m) => m,
            },
    {
        match self {
            AppError::ModelNotLoaded(m) => m,
            AppError::InvalidRequest(m) => m,
            AppError::GenerationFailed(m) => m,
            AppError::TokenizationError(m) => m,
            AppError::NotFound(m) => m,
        }
    }
}

} // verus!
