//! The session and streaming layer of a chat gateway in front of a language
//! model: conversation stores with turn trimming, an upload cache that is
//! consumed once, model selection, the framing of streamed replies, and the
//! assembly and clean-up of text extracted from uploaded documents.
pub mod store;
pub mod session;
pub mod error;
pub mod types;
pub mod model;
pub mod file_parser;
pub mod handler;
pub mod mistral_runner;
pub mod text;
pub mod text_cleanup;
pub mod document_text;
