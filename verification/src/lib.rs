//! Redaction of personal data in chat session logs: the text handling, the
//! parsing of the language model's answers and the rewriting of the logs,
//! with their contracts.

pub mod json;
pub mod pattern;
pub mod text;
pub mod llm_work;
pub mod config;
pub mod data;
pub mod logging;
