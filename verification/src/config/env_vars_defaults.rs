//! Default values of the configuration.

use crate::config::expanduser::{expand_user_path, expanded};
use crate::config::secret_string::SecretString;
use vstd::prelude::*;
use vstd::string::*;

verus! {

/// The default pause, in milliseconds, that emulates work on a cached response (0).
pub fn default_llm_cache_sleep_millis() -> (res: u64)
    ensures
        res == 0,
{
    0
}

/// The default LLM cache setting (off).
pub fn default_llm_cache_enabled() -> (res: bool)
    ensures
        !res,
{
    false
}

/// The default port of the redaction probe (8118).
pub fn default_redact_probe_port() -> (res: u16)
    ensures
        res == 8118,
{
    8118
}

/// The default number of parallel redaction tasks (8).
pub fn default_redact_max_tasks() -> (res: usize)
    ensures
        res == 8,
{
    8
}

/// The path of the system prompt before expansion.
pub open spec fn system_prompt_path() -> Seq<char> {
    seq!['~', '/', '.', 'l', 'o', 'c', 'a', 'l', '/', 's', 'y', 's', 't', 'e', 'm', '_', 'p', 'r', 'o', 'm', 'p', 't', '.', 't', 'x', 't']
}

/// The default location of the system prompt: `~/.local/system_prompt.txt`
/// with `~` expanded to the home directory when it is known.
pub fn default_system_prompt_location() -> (res: String)
    ensures
        exists|home: Option<Seq<char>>| res@ == expanded(system_prompt_path(), home),
{
    let path = "~/.local/system_prompt.txt";
    proof {
        reveal_strlit("~/.local/system_prompt.txt");
        assert(path@ =~= system_prompt_path());
    }
    expand_user_path(path)
}

/// The default AWS region of S3 (`us-east-1`).
pub fn default_aws_region_s3() -> (res: String)
    ensures
        res@ == seq!['u', 's', '-', 'e', 'a', 's', 't', '-', '1'],
{
    proof {
        reveal_strlit("us-east-1");
    }
    String::from_str("us-east-1")
}

/// The default S3 endpoint (none; it is set for tests).
pub fn default_aws_s3_endpoint() -> (res: Option<String>)
    ensures
        res is None,
{
    None
}

/// The default maximum age of queue stream messages: one day in seconds.
pub fn default_queue_stream_max_age() -> (res: u64)
    ensures
        res == 60 * 60 * 24,
{
    60 * 60 * 24
}

/// The default LLM token (`sk-1234`).
pub fn default_llm_token() -> (res: SecretString)
    ensures
        res.value@ == seq!['s', 'k', '-', '1', '2', '3', '4'],
{
    proof {
        reveal_strlit("sk-1234");
    }
    SecretString::new("sk-1234")
}

/// The default NATS URL.
pub fn default_nats_url() -> (res: String)
    ensures
        res@ == seq!['n', 'a', 't', 's', ':', '/', '/', 'l', 'o', 'c', 'a', 'l', 'h', 'o', 's', 't', ':', '4', '2', '2', '2'],
{
    proof {
        reveal_strlit("nats://localhost:4222");
    }
    String::from_str("nats://localhost:4222")
}

/// The default log level.
pub fn default_log_level() -> (res: String)
    ensures
        res@ == seq!['i', 'n', 'f', 'o'],
{
    proof {
        reveal_strlit("info");
    }
    String::from_str("info")
}

/// The default redaction subject.
pub fn default_redact_subject() -> (res: String)
    ensures
        res@ == seq!['r', 'e', 'd', 'a', 'c', 't', '-', 'l', 'o', 'g'],
{
    proof {
        reveal_strlit("redact-log");
    }
    String::from_str("redact-log")
}

/// The default queue stream name.
pub fn default_queue_stream() -> (res: String)
    ensures
        res@ == seq!['c', 'o', 'n', 'v', 'e', 'r', 's', 'a', 't', 'i', 'o', 'n', '-', 's', 't', 'r', 'e', 'a', 'm'],
{
    proof {
        reveal_strlit("conversation-stream");
    }
    String::from_str("conversation-stream")
}

/// The default URL of the LLM service.
pub fn default_llm_url() -> (res: String)
    ensures
        res@ == seq!['h', 't', 't', 'p', ':', '/', '/', 'l', 'o', 'c', 'a', 'l', 'h', 'o', 's', 't', ':', '4', '0', '0', '0', '/', 'c', 'h', 'a', 't', '/', 'c', 'o', 'm', 'p', 'l', 'e', 't', 'i', 'o', 'n', 's'],
{
    proof {
        reveal_strlit("http://localhost:4000/chat/completions");
    }
    String::from_str("http://localhost:4000/chat/completions")
}

} // verus!
