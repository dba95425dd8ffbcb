//! Verified core of a meeting recorder: transcript handling, translation
//! prompts and output cleanup, export formats and the model registry.
pub mod text;
pub mod llm;
pub mod transcript;
pub mod provider;
pub mod records;
pub mod export;
pub mod registry;
pub mod sidecar;
pub mod translation;
pub mod helper;
pub mod asr;
pub mod bpe;
pub mod laws;
