//! A verified core for a reverse-proxy gateway that puts an OpenAI-style
//! chat/embeddings API in front of an Ollama backend.
//!
//! The library holds the gateway's logic: route classification, request and
//! response translation between the two wire formats, the parameter-safety
//! modifier pipeline, text chunking for oversized embedding inputs, model
//! metadata extraction, and the line framing used by the streaming relay.
//! Network and process concerns live outside the library.

pub mod chunker;
pub mod gateway;
pub mod model_metadata;
pub mod modifier;
pub mod relay;
pub mod text;
pub mod translator;
