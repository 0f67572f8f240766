//! Bodies of the gateway's requests and replies.
use vstd::prelude::*;
use crate::session::ChatMessage;

verus! {

/// A generation request: the model to use, the prompt, and the session to
/// continue, if any.
#[derive(Debug)]
pub struct InferenceRequest {
    pub model: String,
    pub prompt: String,
    pub session_id: Option<String>,
}

#[derive(Debug)]
pub struct InferenceResponse {
    pub text: String,
    pub session_id: Option<String>,
}

#[derive(Debug)]
pub struct UploadResponse {
    pub file_id: String,
    pub filename: String,
    pub file_size: usize,
}

#[derive(Debug)]
pub struct DeleteResponse {
    pub file_id: String,
    pub result: bool,
}

#[derive(Debug)]
pub struct RemoveSessionResponse {
    pub session_id: String,
    pub cleared: bool,
}

#[derive(Debug)]
pub struct GetSessionResponse {
    pub session_id: String,
    pub messages: Vec<ChatMessage>,
    pub exists: bool,
}

#[derive(Debug)]
pub struct SyncSessionRequest {
    pub session_id: String,
    pub messages: Vec<ChatMessage>,
}

#[derive(Debug)]
pub struct SyncSessionResponse {
    pub session_id: String,
    pub synced: bool,
    pub message_count: usize,
}

} // verus!
