use mess::channels::{parse_messengers, ChannelId};
use mess::config::{load_settings, resolve_config};
use mess::errors::ConfigError;
use mess::settings::{resolve, Settings};
use mess::text::parse_u64;

fn pair(k: &str, v: &str) -> (String, String) {
    (k.to_string(), v.to_string())
}

#[test]
fn messenger_list_parses_in_order() {
    let r = parse_messengers("desktop,beep").unwrap();
    assert_eq!(r, vec![ChannelId::Desktop, ChannelId::Beep]);
}

#[test]
fn messenger_list_is_trimmed_and_case_folded() {
    let r = parse_messengers(" Desktop , BEEP ,discord").unwrap();
    assert_eq!(r, vec![ChannelId::Desktop, ChannelId::Beep, ChannelId::Discord]);
}

#[test]
fn interior_whitespace_is_not_deleted() {
    match parse_messengers("be ep") {
        Err(ConfigError::UnknownMessenger(name)) => assert_eq!(name, "BE EP"),
        other => panic!("expected an unknown-messenger error, got {:?}", other),
    }
}

#[test]
fn tabs_around_a_token_are_trimmed() {
    let r = parse_messengers("\tbeep\t,\n desktop \r").unwrap();
    assert_eq!(r, vec![ChannelId::Beep, ChannelId::Desktop]);
}

#[test]
fn duplicate_messengers_are_kept() {
    let r = parse_messengers("beep,beep").unwrap();
    assert_eq!(r, vec![ChannelId::Beep, ChannelId::Beep]);
}

#[test]
fn unknown_messenger_is_rejected_whatever_its_case() {
    match parse_messengers("desktop,Telegram") {
        Err(ConfigError::UnknownMessenger(name)) => assert_eq!(name, "TELEGRAM"),
        other => panic!("expected an unknown-messenger error, got {:?}", other),
    }
}

#[test]
fn empty_messenger_value_is_rejected() {
    match parse_messengers("") {
        Err(ConfigError::UnknownMessenger(name)) => assert_eq!(name, ""),
        other => panic!("expected an unknown-messenger error, got {:?}", other),
    }
}

#[test]
fn duration_text_parses() {
    assert_eq!(parse_u64("10"), Some(10));
    assert_eq!(parse_u64("+7"), Some(7));
    assert_eq!(parse_u64("0"), Some(0));
    assert_eq!(parse_u64("18446744073709551615"), Some(u64::MAX));
}

#[test]
fn bad_duration_text_is_rejected() {
    assert_eq!(parse_u64(""), None);
    assert_eq!(parse_u64("+"), None);
    assert_eq!(parse_u64("12x"), None);
    assert_eq!(parse_u64(" 12"), None);
    assert_eq!(parse_u64("18446744073709551616"), None);
}

#[test]
fn missing_messengers_is_fatal() {
    let s = resolve(&vec![pair("duration", "10")], &vec![]);
    assert!(matches!(resolve_config(&s), Err(ConfigError::MissingMessengers)));
}

#[test]
fn missing_duration_is_fatal() {
    let s = resolve(&vec![pair("messengers", "desktop")], &vec![]);
    assert!(matches!(resolve_config(&s), Err(ConfigError::MissingDuration)));
}

#[test]
fn unparseable_duration_is_fatal() {
    let s = resolve(&vec![pair("messengers", "desktop"), pair("duration", "soon")], &vec![]);
    assert!(matches!(resolve_config(&s), Err(ConfigError::InvalidDuration)));
}

#[test]
fn unknown_messenger_in_settings_is_fatal() {
    let s = resolve(&vec![pair("messengers", "pager"), pair("duration", "10")], &vec![]);
    match resolve_config(&s) {
        Err(ConfigError::UnknownMessenger(name)) => assert_eq!(name, "PAGER"),
        other => panic!("expected an unknown-messenger error, got {:?}", other),
    }
}

#[test]
fn valid_settings_resolve() {
    let s = resolve(
        &vec![pair("messengers", "desktop,beep"), pair("duration", "100")],
        &vec![],
    );
    let c = resolve_config(&s).unwrap();
    assert_eq!(c.messengers, vec![ChannelId::Desktop, ChannelId::Beep]);
    assert_eq!(c.duration, 100);
    assert!(!c.debug);
}

#[test]
fn debug_flag_is_case_insensitive() {
    let s = resolve(
        &vec![pair("messengers", "beep"), pair("duration", "1"), pair("debug", "true")],
        &vec![],
    );
    assert!(resolve_config(&s).unwrap().debug);
}

#[test]
fn config_text_is_parsed_and_overlaid() {
    let text = "[main]\nmessengers=desktop\nduration=10\n";
    let env = vec![pair("MESS_DURATION", "5")];
    let s = load_settings(text, &env).unwrap();
    let c = resolve_config(&s).unwrap();
    assert_eq!(c.messengers, vec![ChannelId::Desktop]);
    assert_eq!(c.duration, 5);
}

#[test]
fn unparseable_config_text_is_fatal() {
    let env: Vec<(String, String)> = Vec::new();
    match load_settings("[unclosed\nkey=value\n", &env) {
        Err(e) => assert!(matches!(e, ConfigError::UnreadableConfig)),
        Ok(_) => panic!("expected an unreadable-config error"),
    }
}

#[test]
fn error_descriptions_match_the_diagnostics() {
    assert_eq!(
        ConfigError::MissingMessengers.describe(),
        "No messengers found!"
    );
    assert_eq!(
        ConfigError::UnknownMessenger("TEAMS".to_string()).describe(),
        "Messenger TEAMS not available!"
    );
    assert_eq!(ConfigError::MissingDuration.describe(), "No duration allowed found!");
    assert_eq!(
        ConfigError::InvalidDuration.describe(),
        "Failed to parse DURATION to integer"
    );
    let s: Settings = Settings::empty();
    assert_eq!(s.get("ANY"), None);
}
