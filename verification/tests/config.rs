use ductaper::config::env_vars_defaults::{
    default_aws_region_s3, default_aws_s3_endpoint, default_llm_cache_enabled,
    default_llm_cache_sleep_millis, default_llm_token, default_llm_url, default_log_level,
    default_nats_url, default_queue_stream, default_queue_stream_max_age,
    default_redact_max_tasks, default_redact_probe_port, default_redact_subject,
    default_system_prompt_location,
};
use ductaper::config::env_vars_methods::{bool_from_lowercase, parse_bool_str};
use ductaper::config::expanduser::{expand_user_path, expand_user_path_with_home};
use ductaper::config::list_env::{env_line, mask};
use ductaper::config::secret_string::SecretString;

#[test]
fn mask_keeps_first_four_bytes() {
    assert_eq!(mask("sk-1234".to_string()), "sk-1****");
    assert_eq!(mask("abcdefgh".to_string()), "abcd****");
}

#[test]
fn mask_short_values_whole() {
    assert_eq!(mask("abcd".to_string()), "abcd****");
    assert_eq!(mask("".to_string()), "****");
    assert_eq!(mask("ab".to_string()), "ab****");
}

#[test]
fn mask_multibyte_prefix() {
    // "éé" is four bytes; byte four starts the third character
    assert_eq!(mask("ééé".to_string()), "éé****");
}

#[test]
fn env_line_masks_aws_values() {
    assert_eq!(env_line("AWS_SECRET", "verysecret".to_string()), "AWS_SECRET: very****");
    assert_eq!(env_line("HOME", "/root".to_string()), "HOME: /root");
    assert_eq!(env_line("AWS", "plainvalue".to_string()), "AWS: plainvalue");
}

#[test]
fn secret_string_round_trip() {
    let s = SecretString::new("hunter22");
    assert_eq!(s.get_string(), "hunter22");
    assert_eq!(s.masked(), "hunt****");
    let t: SecretString = SecretString::from("topsecret".to_string());
    assert_eq!(t.get_string(), "topsecret");
    assert_eq!(t.value, "topsecret");
}

#[test]
fn defaults_have_documented_values() {
    assert_eq!(default_llm_cache_sleep_millis(), 0);
    assert!(!default_llm_cache_enabled());
    assert_eq!(default_redact_probe_port(), 8118);
    assert_eq!(default_redact_max_tasks(), 8);
    assert_eq!(default_aws_region_s3(), "us-east-1");
    assert_eq!(default_aws_s3_endpoint(), None);
    assert_eq!(default_queue_stream_max_age(), 86400);
    assert_eq!(default_llm_token().get_string(), "sk-1234");
    assert_eq!(default_nats_url(), "nats://localhost:4222");
    assert_eq!(default_log_level(), "info");
    assert_eq!(default_redact_subject(), "redact-log");
    assert_eq!(default_queue_stream(), "conversation-stream");
    assert_eq!(default_llm_url(), "http://localhost:4000/chat/completions");
}

#[test]
fn default_prompt_location_ends_with_file() {
    let loc = default_system_prompt_location();
    assert!(loc.ends_with("system_prompt.txt"));
    assert!(loc.contains(".local"));
}

#[test]
fn expand_with_home_joins() {
    assert_eq!(
        expand_user_path_with_home("~/.local/x.txt", Some("/home/u".to_string())),
        "/home/u/.local/x.txt"
    );
    assert_eq!(expand_user_path_with_home("~/a", None), "~/a");
    assert_eq!(expand_user_path_with_home("/etc/a", Some("/home/u".to_string())), "/etc/a");
    assert_eq!(expand_user_path_with_home("~a", Some("/home/u".to_string())), "~a");
}

#[test]
fn expand_without_tilde_unchanged() {
    assert_eq!(expand_user_path("/var/tmp/file"), "/var/tmp/file");
    assert_eq!(expand_user_path("relative/path"), "relative/path");
}

#[test]
fn bool_words() {
    for w in ["true", "1", "yes", "y"] {
        assert_eq!(bool_from_lowercase(w), Some(true));
    }
    for w in ["false", "0", "no", "n"] {
        assert_eq!(bool_from_lowercase(w), Some(false));
    }
    assert_eq!(bool_from_lowercase("maybe"), None);
    assert_eq!(bool_from_lowercase("TRUE"), None);
}

#[test]
fn bool_parse_ignores_case() {
    assert_eq!(parse_bool_str("TRUE"), Some(true));
    assert_eq!(parse_bool_str("Yes"), Some(true));
    assert_eq!(parse_bool_str("No"), Some(false));
    assert_eq!(parse_bool_str("N"), Some(false));
    assert_eq!(parse_bool_str("2"), None);
    assert_eq!(parse_bool_str(""), None);
}
