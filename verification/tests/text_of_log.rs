use ductaper::data::session_log_models::{
    ArchTypeItem, Architecture, ChatMessageItem, SessionLogEntry,
};
use ductaper::llm_work::get_text_from_session_log::{
    add_txt, get_text_from_session_log, is_extractable, StringHashSet,
};
use ductaper::llm_work::texter::texter;

fn msg(role: &str, content: &str) -> SessionLogEntry {
    SessionLogEntry::ChatMessageEnum(ChatMessageItem {
        role: role.to_string(),
        content: content.to_string(),
        tool_calls: None,
        turn: None,
    })
}

fn sample_log() -> Vec<SessionLogEntry> {
    vec![
        SessionLogEntry::ArchTypeEnum(ArchTypeItem {
            architecture_type: Architecture::Neocortex,
        }),
        msg("user", "<user_input> Hello I am Jack </user_input> extra"),
        msg("assistant", "\"Hi Jack\""),
        msg("user", "<user_input> Hello I am Jack </user_input> extra"),
        msg("assistant", "x <assistant_response>\n Sure \n</assistant_response>"),
    ]
}

#[test]
fn text_of_log_dedups_lines() {
    let log = sample_log();
    assert!(is_extractable(&log));
    assert_eq!(
        get_text_from_session_log(&log),
        "user: Hello I am Jack\nassistant: Hi Jack\nassistant: Sure\n"
    );
}

#[test]
fn text_of_log_fallbacks() {
    let log = vec![
        msg("user", "<user_input>abc"),
        msg("user", "line one\nline two"),
        msg("system", "<assistant_response>tail"),
        msg("assistant", "plain"),
    ];
    assert_eq!(
        get_text_from_session_log(&log),
        "user: abc\nuser: line one line two\nassistant: tail\nassistant: plain\n"
    );
}

#[test]
fn text_of_empty_log() {
    let log: Vec<SessionLogEntry> = Vec::new();
    assert_eq!(get_text_from_session_log(&log), "");
}

#[test]
fn extractable_detects_reversed_tags() {
    let log = vec![msg("user", "</user_input> a <user_input>")];
    assert!(!is_extractable(&log));
    let log = vec![msg("assistant", "</user_input> a <user_input>")];
    assert!(is_extractable(&log));
}

#[test]
fn add_txt_skips_repeats() {
    let mut seen = StringHashSet::new();
    let mut dst = String::new();
    add_txt(&mut seen, &mut dst, "a\n");
    add_txt(&mut seen, &mut dst, "b\n");
    add_txt(&mut seen, &mut dst, "a\n");
    assert_eq!(dst, "a\nb\n");
    assert_eq!(seen.len(), 2);
}

#[test]
fn texter_keeps_repeats() {
    let log = sample_log();
    assert_eq!(
        texter(log),
        "user: Hello I am Jack\nASSISTANT: Hi Jack\nuser: Hello I am Jack\nASSISTANT: Sure\n"
    );
}

#[test]
fn texter_fallbacks() {
    let log = vec![
        msg("user", "<user_input>abc"),
        msg("assistant", "<assistant_response>tail"),
        msg("assistant", "\"quoted\""),
    ];
    assert_eq!(
        texter(log),
        "user: <user_input>abc\nASSISTANT: <assistant_response>tail\nASSISTANT: quoted\n"
    );
}
