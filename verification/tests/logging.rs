use ductaper::logging::{init_level, LogLevel};

#[test]
fn level_defaults_to_info() {
    assert_eq!(init_level(None), Some(LogLevel::Info));
}

#[test]
fn level_names_ignore_ascii_case() {
    assert_eq!(init_level(Some("debug")), Some(LogLevel::Debug));
    assert_eq!(init_level(Some("DEBUG")), Some(LogLevel::Debug));
    assert_eq!(init_level(Some("WaRn")), Some(LogLevel::Warn));
    assert_eq!(init_level(Some("trace")), Some(LogLevel::Trace));
    assert_eq!(init_level(Some("error")), Some(LogLevel::Error));
    assert_eq!(init_level(Some("info")), Some(LogLevel::Info));
}

#[test]
fn level_numbers_one_to_five() {
    assert_eq!(init_level(Some("1")), Some(LogLevel::Error));
    assert_eq!(init_level(Some("3")), Some(LogLevel::Info));
    assert_eq!(init_level(Some("+5")), Some(LogLevel::Trace));
    assert_eq!(init_level(Some("004")), Some(LogLevel::Debug));
}

#[test]
fn unknown_levels_are_none() {
    assert_eq!(init_level(Some("0")), None);
    assert_eq!(init_level(Some("6")), None);
    assert_eq!(init_level(Some("verbose")), None);
    assert_eq!(init_level(Some("")), None);
    assert_eq!(init_level(Some(" info")), None);
}
