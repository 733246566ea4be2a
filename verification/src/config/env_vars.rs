//! The settings of the application.

use crate::config::secret_string::SecretString;
use vstd::prelude::*;

verus! {

/// Main configuration structure for the application.
///
/// Contains all configurable parameters; the defaults are in
/// `env_vars_defaults`.
#[derive(Clone)]
pub struct Cfg {
    /// NATS server URL (default: "<nats://localhost:4222>")
    pub nats_url: String,
    /// Logging level (default: "info")
    pub log_level: String,
    /// Token for LLM service (default: "sk-1234")
    pub llm_token: SecretString,
    /// URL for LLM service (default: "<http://localhost:4000/chat/completions>")
    pub llm_url: String,
    /// Tenant identifier (required)
    pub tenant: String,
    /// Application identifier (required)
    pub application: String,
    /// NATS stream name for queues (default: "conversation-stream")
    pub queue_stream: String,
    /// Subject for redaction logs (default: "redact-log")
    pub redact_subject: String,
    /// Maximum age for queue stream messages in seconds (default: 86400 = 1 day)
    pub queue_stream_max_age_seconds: u64,
    /// AWS region for S3 operations (default: "us-east-1")
    pub aws_region_s3: String,
    /// s3 endpoint for tests
    pub aws_s3_endpoint: Option<String>,
    /// Optional AWS access key ID
    pub aws_access_key_id: Option<SecretString>,
    /// Optional AWS secret access key
    pub aws_secret_access_key: Option<SecretString>,
    /// Optional AWS session token
    pub aws_access_token: Option<SecretString>,
    /// pass aws key as header: "x-portkey-aws-access-key-id"
    pub portkey_aws_access_key_id_header: Option<String>,
    /// pass aws region as header: "x-portkey-aws-region"
    pub portkey_aws_region_header: Option<String>,
    /// pass aws access key as header: "x-portkey-aws-secret-access-key"
    pub portkey_aws_secret_access_key_header: Option<String>,
    /// Optional AWS session token as header: "x-portkey-aws-session-token"
    pub portkey_aws_access_token_header: Option<String>,
    /// Optional portkey provider: "x-portkey-provider"
    pub portkey_provider_header: Option<String>,
    /// Optional portkey provider: "bedrock"
    pub portkey_provider_value: Option<String>,
    /// URL for aggregator sessions log
    pub aggregator_sessions_log_url: String,
    /// LLM model identifier
    pub llm_model: String,
    /// Location of system prompt file (default: "~/.local/system_prompt.txt")
    pub system_prompt_location: String,
    /// Maximum parallel redaction tasks (default: 8)
    pub redact_max_tasks: usize,
    /// Port of the probe (default: 8118)
    pub redact_probe_port: u16,
    /// Whether LLM caching is enabled (default: false)
    pub llm_cache: bool,
    /// emulate work and sleep on cached response
    pub llm_cache_sleep_millis: u64,
    /// LLM region
    pub aws_region: Option<String>,
}

} // verus!
