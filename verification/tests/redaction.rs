use ductaper::data::session_log_models::{
    ChatGpt, ChatGptItem, ChatMessageItem, Request, Response, SessionLogEntry, TimeSummary,
    TimeSummaryItem, TotalFunctionTimes,
};
use ductaper::llm_work::extract_operators::extract_and_parse_operators_fragment;
use ductaper::llm_work::llm_log_processor::LlmLogProcessor;
use ductaper::llm_work::masks::{get_valid_redactions, redaction_masks};
use ductaper::llm_work::process_result::ProcessResult;

const PROMPT: &str = "You redact.\nOPERATORS = {\n  \"PERSON\": {\"type\": \"replace\", \"new_value\": \"[PERSON]\"},\n  \"EMAIL\": {\"type\": \"mask\", \"new_value\": \"[EMAIL]\"},\n  \"CARD\": {\"type\": \"mask\"},\n}\nThe end.";

fn msg(role: &str, content: &str) -> ChatMessageItem {
    ChatMessageItem { role: role.to_string(), content: content.to_string(), tool_calls: None, turn: None }
}

fn sorted(mut v: Vec<String>) -> Vec<String> {
    v.sort();
    v
}

fn sorted_pairs(mut v: Vec<(String, String)>) -> Vec<(String, String)> {
    v.sort();
    v
}

fn processor(valid: Option<Vec<&str>>) -> LlmLogProcessor {
    LlmLogProcessor {
        system_prompt: String::new(),
        model: "m".to_string(),
        valid_redactions: valid.map(|v| v.iter().map(|s| s.to_string()).collect()),
    }
}

fn response(content: &str) -> serde_json::Value {
    let choice = serde_json::Value::Object(
        [(
            "message".to_string(),
            serde_json::Value::Object(
                [("content".to_string(), serde_json::Value::String(content.to_string()))]
                    .into_iter()
                    .collect(),
            ),
        )]
        .into_iter()
        .collect(),
    );
    serde_json::Value::Object(
        [("choices".to_string(), serde_json::Value::Array(vec![choice]))].into_iter().collect(),
    )
}

#[test]
fn valid_redactions_from_prompt() {
    let masks = get_valid_redactions(PROMPT).unwrap();
    assert_eq!(sorted(masks), vec!["[EMAIL]".to_string(), "[PERSON]".to_string()]);
}

#[test]
fn valid_redactions_missing_table() {
    assert_eq!(get_valid_redactions("no table here"), None);
    assert_eq!(get_valid_redactions("OPERATORS = {\n  \"A\": {\"type\": \"x\"}\n}"), None);
    assert_eq!(get_valid_redactions("OPERATORS = {\n  not json\n}"), None);
}

#[test]
fn masks_of_value_are_distinct() {
    let v: serde_json::Value =
        serde_json::from_str(r#"{"a": {"new_value": "[X]"}, "b": {"new_value": "[X]"}, "c": 3}"#)
            .unwrap();
    assert_eq!(redaction_masks(&v), Some(vec!["[X]".to_string()]));
    let not_object: serde_json::Value = serde_json::from_str("[1, 2]").unwrap();
    assert_eq!(redaction_masks(&not_object), None);
}

#[test]
fn operators_fragment_parses() {
    let v = extract_and_parse_operators_fragment(PROMPT).unwrap();
    assert_eq!(v["PERSON"]["new_value"], "[PERSON]");
    assert_eq!(v["EMAIL"]["type"], "mask");
}

#[test]
fn operators_fragment_errors() {
    assert_eq!(
        extract_and_parse_operators_fragment("nothing").unwrap_err(),
        "OPERATORS fragment not found in the text."
    );
    let err = extract_and_parse_operators_fragment("OPERATORS = {\n  bad\n}").unwrap_err();
    assert!(err.starts_with("Failed to parse JSON fragment: "));
}

#[test]
fn processor_reads_masks_from_prompt() {
    let p = LlmLogProcessor::new(PROMPT.to_string(), "haiku");
    assert_eq!(p.model, "haiku");
    assert_eq!(sorted(p.valid_redactions.unwrap()), vec!["[EMAIL]".to_string(), "[PERSON]".to_string()]);
}

#[test]
fn parse_redactions_filters_unknown_masks() {
    let p = processor(Some(vec!["[PERSON]"]));
    let content = r#"{"redactions": {"Jack Daniels": "[PERSON]", "[EMAIL]": "jack@x.com", "1234 5678": "1234 ****", "Bob": "[ALIEN]"}}"#;
    let r = p.parse_redactions(content).unwrap();
    assert_eq!(
        sorted_pairs(r),
        vec![
            ("1234 5678".to_string(), "1234 ****".to_string()),
            ("Jack Daniels".to_string(), "[PERSON]".to_string()),
        ]
    );
}

#[test]
fn parse_redactions_without_masks_keeps_all() {
    let p = processor(None);
    let content = r#"{"redactions": {"[EMAIL]": "jack@x.com", "Bob": "[ALIEN]", "n": 5}}"#;
    let r = p.parse_redactions(content).unwrap();
    assert_eq!(
        sorted_pairs(r),
        vec![
            ("Bob".to_string(), "[ALIEN]".to_string()),
            ("jack@x.com".to_string(), "[EMAIL]".to_string()),
        ]
    );
}

#[test]
fn parse_redactions_rejects_other_shapes() {
    let p = processor(None);
    assert_eq!(p.parse_redactions("not json"), None);
    assert_eq!(p.parse_redactions(r#"{"other": 1}"#), None);
    assert_eq!(p.parse_redactions(r#"{"redactions": [1]}"#), None);
    assert_eq!(p.parse_redactions(r#"{"redactions": {}}"#), Some(Vec::new()));
}

#[test]
fn extract_content_from_response() {
    let v = response("hello");
    assert_eq!(LlmLogProcessor::extract_content(&v), Some("hello"));
    let empty: serde_json::Value = serde_json::from_str(r#"{"choices": []}"#).unwrap();
    assert_eq!(LlmLogProcessor::extract_content(&empty), None);
}

#[test]
fn redactions_of_parsed_answer() {
    let p = processor(Some(vec!["[PERSON]"]));
    let parsed: serde_json::Value =
        serde_json::from_str(r#"{"redactions": {"[PERSON]": "Ann", "Bob": "[CITY]", "Eve": "E***"}}"#).unwrap();
    assert_eq!(
        sorted_pairs(p.redactions_of_parsed(&parsed).unwrap()),
        vec![("Ann".to_string(), "[PERSON]".to_string()), ("Eve".to_string(), "E***".to_string())]
    );
    let other: serde_json::Value = serde_json::from_str(r#"{"redactions": "none"}"#).unwrap();
    assert_eq!(p.redactions_of_parsed(&other), None);
}

#[test]
fn extract_content_old_reads_the_same_fields() {
    let v = response("hello");
    assert_eq!(LlmLogProcessor::extract_content_old(&v), Some("hello"));
    let not_text: serde_json::Value =
        serde_json::from_str(r#"{"choices": [{"message": {"content": 7}}]}"#).unwrap();
    assert_eq!(LlmLogProcessor::extract_content_old(&not_text), None);
    assert_eq!(LlmLogProcessor::extract_content(&not_text), None);
    let not_array: serde_json::Value =
        serde_json::from_str(r#"{"choices": {"message": {"content": "x"}}}"#).unwrap();
    assert_eq!(LlmLogProcessor::extract_content_old(&not_array), None);
}

#[test]
fn redactions_of_response() {
    let p = processor(Some(vec!["[PERSON]"]));
    let v = response(r#"{"redactions": {"Jack": "[PERSON]"}}"#);
    assert_eq!(p.redactions(&v), vec![("Jack".to_string(), "[PERSON]".to_string())]);
    let bad = response("I cannot help");
    assert!(p.redactions(&bad).is_empty());
}

#[test]
fn upd_field_applies_in_order() {
    let rs = vec![("a".to_string(), "x".to_string()), ("x".to_string(), "y".to_string())];
    assert_eq!(LlmLogProcessor::upd_field("a-b-a".to_string(), &rs), "y-b-y");
    let empty_key = vec![("".to_string(), "-".to_string())];
    assert_eq!(LlmLogProcessor::upd_field("ab".to_string(), &empty_key), "-a-b-");
    assert_eq!(LlmLogProcessor::upd_field("abc".to_string(), &Vec::new()), "abc");
}

fn times() -> TotalFunctionTimes {
    TotalFunctionTimes {
        timestamp: 1.5f64.to_bits(),
        retrieve_state: 0,
        get_rules: 0,
        get_groups: 0,
        get_devices: 0,
        get_response: 0,
    }
}

#[test]
fn update_log_rewrites_chat_texts() {
    let p = processor(None);
    let mut log = vec![
        SessionLogEntry::ChatMessageEnum(msg("user", "I am Jack, Jack!")),
        SessionLogEntry::ChatGptEnum(ChatGptItem {
            chat_gpt: ChatGpt {
                request: Request {
                    chat_history: vec![msg("user", "Jack here"), msg("assistant", "hi")],
                    functions: Vec::new(),
                    model: "m".to_string(),
                    gpt_client: "c".to_string(),
                },
                response: Response { agent: None, message: Some(msg("assistant", "bye Jack")) },
                time: 2.25f64.to_bits(),
            },
        }),
        SessionLogEntry::TimeSummaryEnum(TimeSummaryItem {
            time_summary_s: TimeSummary { total_function_times: times(), total_request_time: 7 },
        }),
    ];
    let rs = vec![("Jack".to_string(), "[PERSON]".to_string())];
    p.update_log(&mut log, &rs);
    assert_eq!(log.len(), 3);
    match &log[0] {
        SessionLogEntry::ChatMessageEnum(m) => assert_eq!(m.content, "I am [PERSON], [PERSON]!"),
        _ => panic!("kind changed"),
    }
    match &log[1] {
        SessionLogEntry::ChatGptEnum(g) => {
            assert_eq!(g.chat_gpt.request.chat_history[0].content, "[PERSON] here");
            assert_eq!(g.chat_gpt.request.chat_history[1].content, "hi");
            assert_eq!(g.chat_gpt.response.message.as_ref().unwrap().content, "bye [PERSON]");
            assert_eq!(f64::from_bits(g.chat_gpt.time), 2.25);
        },
        _ => panic!("kind changed"),
    }
    match &log[2] {
        SessionLogEntry::TimeSummaryEnum(t) => {
            assert_eq!(t.time_summary_s.total_request_time, 7);
            assert_eq!(f64::from_bits(t.time_summary_s.total_function_times.timestamp), 1.5);
        },
        _ => panic!("kind changed"),
    }
}

#[test]
fn process_response_outcomes() {
    let p = processor(Some(vec!["[PERSON]"]));
    let mut log = vec![SessionLogEntry::ChatMessageEnum(msg("user", "Hi Jack"))];
    let v = response(r#"{"redactions": {"Jack": "[PERSON]"}}"#);
    assert_eq!(p.process_response(&mut log, Some(&v)), ProcessResult::Success);
    match &log[0] {
        SessionLogEntry::ChatMessageEnum(m) => assert_eq!(m.content, "Hi [PERSON]"),
        _ => panic!("kind changed"),
    }
    assert_eq!(p.process_response(&mut log, None), ProcessResult::Error);
    match &log[0] {
        SessionLogEntry::ChatMessageEnum(m) => assert_eq!(m.content, "Hi [PERSON]"),
        _ => panic!("kind changed"),
    }
}
