//! Preparing chat logs for the language model and applying its redactions.

pub mod check_or_swap;
pub mod conv_roles;
pub mod get_text_from_session_log;
pub mod texter;
pub mod preview;
pub mod llm_log_processor;
pub mod update_redacted;
pub mod masks;
pub mod extract_operators;
pub mod llm_log_processor_redactions;
pub mod process_result;
pub mod brevity;
pub mod llm_caller;
pub mod llm_caller_check_cache;
pub mod llm_caller_send;
