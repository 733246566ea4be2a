use ductaper::llm_work::llm_caller_check_cache::{plan_call, store_answer, CallStep};
use ductaper::llm_work::llm_caller_send::{after_attempt, response_outcome, SendStep, SEND_ATTEMPTS};
use ductaper::config::env_vars::Cfg;
use ductaper::config::secret_string::SecretString;
use ductaper::llm_work::llm_caller::{add_bearer, build_body, request_headers};
use ductaper::llm_work::preview::{preview, preview_bytes, preview_str};

fn cfg() -> Cfg {
    Cfg {
        nats_url: "n".to_string(),
        log_level: "info".to_string(),
        llm_token: SecretString::new("sk"),
        llm_url: "u".to_string(),
        tenant: "t".to_string(),
        application: "a".to_string(),
        queue_stream: "q".to_string(),
        redact_subject: "r".to_string(),
        queue_stream_max_age_seconds: 1,
        aws_region_s3: "us-east-1".to_string(),
        aws_s3_endpoint: None,
        aws_access_key_id: Some(SecretString::new("KEYID")),
        aws_secret_access_key: Some(SecretString::new("SECRET")),
        aws_access_token: None,
        portkey_aws_access_key_id_header: Some("x-portkey-aws-access-key-id".to_string()),
        portkey_aws_region_header: Some("x-portkey-aws-region".to_string()),
        portkey_aws_secret_access_key_header: None,
        portkey_aws_access_token_header: Some("x-portkey-aws-session-token".to_string()),
        portkey_provider_header: Some("x-portkey-provider".to_string()),
        portkey_provider_value: Some("bedrock".to_string()),
        aggregator_sessions_log_url: "g".to_string(),
        llm_model: "haiku".to_string(),
        system_prompt_location: "p".to_string(),
        redact_max_tasks: 8,
        redact_probe_port: 8118,
        llm_cache: false,
        llm_cache_sleep_millis: 0,
        aws_region: Some("eu-west-1".to_string()),
    }
}

#[test]
fn bearer_prefix() {
    assert_eq!(add_bearer(Some(&"sk-1234".to_string())), Some("Bearer sk-1234".to_string()));
    assert_eq!(add_bearer(None), None);
}

#[test]
fn headers_when_configured() {
    let h = request_headers(&cfg());
    assert_eq!(
        h,
        vec![
            ("x-portkey-aws-region".to_string(), "eu-west-1".to_string()),
            ("x-portkey-provider".to_string(), "bedrock".to_string()),
            ("x-portkey-aws-access-key-id".to_string(), "KEYID".to_string()),
        ]
    );
}

#[test]
fn body_of_request() {
    let b = build_body("haiku", "be brief", "hello");
    assert_eq!(b["model"], "haiku");
    assert_eq!(b["temperature"], 0);
    assert_eq!(b["messages"][0]["role"], "system");
    assert_eq!(b["messages"][0]["content"], "be brief");
    assert_eq!(b["messages"][1]["role"], "user");
    assert_eq!(b["messages"][1]["content"], "hello");
    assert_eq!(b["messages"].as_array().unwrap().len(), 2);
}

#[test]
fn body_has_exactly_the_expected_shape() {
    let b = build_body("haiku", "be brief", "hi");
    let expected: serde_json::Value = serde_json::from_str(
        r#"{"model": "haiku", "messages": [{"role": "system", "content": "be brief"}, {"role": "user", "content": "hi"}], "temperature": 0}"#,
    )
    .unwrap();
    assert_eq!(b, expected);
}

#[test]
fn response_outcome_on_success() {
    let (v, rec) = response_outcome(true, Some("12"), None, br#"{"a": 1}"#);
    assert_eq!(v.unwrap()["a"], 1);
    assert_eq!(
        rec,
        vec![
            ("x-litellm-response-duration-ms".to_string(), "12".to_string()),
            ("x-litellm-overhead-duration-ms".to_string(), "0".to_string()),
        ]
    );
    let (v, rec) = response_outcome(true, None, None, b"not json");
    assert!(v.is_none());
    assert_eq!(rec.len(), 2);
}

#[test]
fn response_outcome_on_failure() {
    let (v, rec) = response_outcome(false, Some("12"), Some("3"), br#"{"a": 1}"#);
    assert!(v.is_none());
    assert!(rec.is_empty());
}

#[test]
fn cache_steps() {
    assert_eq!(plan_call(false, true), CallStep::Send);
    assert_eq!(plan_call(false, false), CallStep::Send);
    assert_eq!(plan_call(true, true), CallStep::Cached);
    assert_eq!(plan_call(true, false), CallStep::SendAndStore);
    assert!(store_answer(&CallStep::SendAndStore, true));
    assert!(!store_answer(&CallStep::SendAndStore, false));
    assert!(!store_answer(&CallStep::Send, true));
    assert!(!store_answer(&CallStep::Cached, true));
}

#[test]
fn previews_are_cut_at_eighty() {
    let long = vec![7u8; 100];
    assert_eq!(preview(&long).len(), 80);
    assert_eq!(preview(&long[..5]).as_ref(), &long[..5]);
    let b = bytes::Bytes::from(vec![1u8; 90]);
    assert_eq!(preview_bytes(&b).len(), 80);
    let short = bytes::Bytes::from(vec![1u8, 2, 3]);
    assert_eq!(preview_bytes(&short).as_ref(), &[1u8, 2, 3]);
    let s: String = std::iter::repeat('é').take(85).collect();
    assert_eq!(preview_str(&s).chars().count(), 80);
    assert_eq!(preview_str("short"), "short");
}

#[test]
fn sends_at_most_three_times() {
    assert_eq!(SEND_ATTEMPTS, 3);
    assert_eq!(after_attempt(0, true), SendStep::Done);
    assert_eq!(after_attempt(0, false), SendStep::Retry(1));
    assert_eq!(after_attempt(1, false), SendStep::Retry(2));
    assert_eq!(after_attempt(2, false), SendStep::GiveUp);
    assert_eq!(after_attempt(2, true), SendStep::Done);
    let mut sent = 1;
    let mut attempt = 0;
    while let SendStep::Retry(next) = after_attempt(attempt, false) {
        attempt = next;
        sent += 1;
    }
    assert_eq!(sent, 3);
}
