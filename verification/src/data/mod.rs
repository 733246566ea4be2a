//! Data models of the session logs and the names of the LLM API fields.

pub mod ai_tags;
pub mod session_log_models;
