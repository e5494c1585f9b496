use mess::channels::ChannelId;
use mess::config::resolve_config;
use mess::dispatch::{beep_kind_for, plan_dispatch, prepare_channel, BeepKind, Delivery};
use mess::errors::DeliveryError;
use mess::settings::{resolve, Settings};
use mess::text::build_message;

fn pair(k: &str, v: &str) -> (String, String) {
    (k.to_string(), v.to_string())
}

fn settings_of(pairs: Vec<(String, String)>) -> Settings {
    resolve(&pairs, &vec![])
}

#[test]
fn message_text_is_exact() {
    assert_eq!(
        build_message("sleep", 11),
        "Your program sleep has finished after 11 minutes"
    );
    assert_eq!(build_message("x", 0), "Your program x has finished after 0 minutes");
}

#[test]
fn below_threshold_prepares_nothing() {
    let s = settings_of(vec![pair("messengers", "desktop"), pair("duration", "100")]);
    let c = resolve_config(&s).unwrap();
    let plan = plan_dispatch("sleep", 1, c.duration, &s, &c.messengers, BeepKind::Bell);
    assert!(plan.is_empty());
}

#[test]
fn at_threshold_every_channel_runs_once_in_order() {
    let s = settings_of(vec![pair("messengers", "desktop,beep"), pair("duration", "10")]);
    let c = resolve_config(&s).unwrap();
    let plan = plan_dispatch("sleep", 11, c.duration, &s, &c.messengers, BeepKind::Bell);
    assert_eq!(plan.len(), 2);
    assert_eq!(plan[0].0, ChannelId::Desktop);
    assert_eq!(plan[1].0, ChannelId::Beep);
    match &plan[0].1 {
        Ok(Delivery::Desktop { message }) => {
            assert_eq!(message, "Your program sleep has finished after 11 minutes")
        },
        other => panic!("expected a desktop delivery, got {:?}", other.is_ok()),
    }
    match &plan[1].1 {
        Ok(Delivery::Beep { kind }) => assert_eq!(*kind, BeepKind::Bell),
        other => panic!("expected a beep delivery, got {:?}", other.is_ok()),
    }
}

#[test]
fn missing_discord_token_is_reported_not_fatal() {
    let s = settings_of(vec![pair("messengers", "discord"), pair("duration", "10")]);
    let c = resolve_config(&s).unwrap();
    let plan = plan_dispatch("sleep", 11, c.duration, &s, &c.messengers, BeepKind::Bell);
    assert_eq!(plan.len(), 1);
    match &plan[0].1 {
        Err(DeliveryError::MissingCredential(key)) => {
            assert_eq!(key, "DISCORD_TOKEN");
            assert_eq!(
                DeliveryError::MissingCredential(key.clone()).describe(),
                "Missing credential DISCORD_TOKEN"
            );
        },
        other => panic!("expected a missing credential, got {:?}", other.is_ok()),
    }
}

#[test]
fn failed_channel_does_not_drop_a_later_one() {
    let s = settings_of(vec![pair("messengers", "discord,desktop"), pair("duration", "10")]);
    let c = resolve_config(&s).unwrap();
    let plan = plan_dispatch("sleep", 11, c.duration, &s, &c.messengers, BeepKind::Bell);
    assert_eq!(plan.len(), 2);
    assert!(plan[0].1.is_err());
    match &plan[1].1 {
        Ok(Delivery::Desktop { .. }) => {},
        other => panic!("expected a desktop delivery, got {:?}", other.is_ok()),
    }
}

#[test]
fn discord_delivery_carries_parsed_channel_and_token() {
    let s = settings_of(vec![
        pair("messengers", "discord"),
        pair("duration", "10"),
        pair("discord_token", "SECRET-REDACTED"),
        pair("discord_channel_id", "42"),
    ]);
    match prepare_channel(ChannelId::Discord, "job", 12, &s, BeepKind::Bell) {
        Ok(Delivery::Discord { token, channel_id, message }) => {
            assert_eq!(token, "SECRET-REDACTED");
            assert_eq!(channel_id, 42);
            assert_eq!(message, "Your program job has finished after 12 minutes");
        },
        other => panic!("expected a discord delivery, got {:?}", other.is_ok()),
    }
}

#[test]
fn unparseable_discord_channel_is_an_invalid_credential() {
    let s = settings_of(vec![
        pair("discord_token", "SECRET-REDACTED"),
        pair("discord_channel_id", "general"),
    ]);
    match prepare_channel(ChannelId::Discord, "job", 12, &s, BeepKind::Bell) {
        Err(DeliveryError::InvalidCredential(key)) => assert_eq!(key, "DISCORD_CHANNEL_ID"),
        other => panic!("expected an invalid credential, got {:?}", other.is_ok()),
    }
}

#[test]
fn slack_delivery_builds_the_json_payload() {
    let s = settings_of(vec![
        pair("slack_bot_token", "SECRET-REDACTED"),
        pair("slack_channel_id", "C001"),
    ]);
    match prepare_channel(ChannelId::Slack, "job", 9, &s, BeepKind::Bell) {
        Ok(Delivery::Slack { token, body }) => {
            assert_eq!(token, "SECRET-REDACTED");
            assert_eq!(
                body,
                "{\"channel\":\"C001\",\"text\":\"Your program job has finished after 9 minutes\"}"
            );
        },
        other => panic!("expected a slack delivery, got {:?}", other.is_ok()),
    }
}

#[test]
fn slack_missing_channel_is_reported_first() {
    let s = settings_of(vec![pair("slack_bot_token", "SECRET-REDACTED")]);
    match prepare_channel(ChannelId::Slack, "job", 9, &s, BeepKind::Bell) {
        Err(DeliveryError::MissingCredential(key)) => assert_eq!(key, "SLACK_CHANNEL_ID"),
        other => panic!("expected a missing credential, got {:?}", other.is_ok()),
    }
}

#[test]
fn text_delivery_builds_url_and_form_body() {
    let s = settings_of(vec![
        pair("twilio_sender", "+15550001"),
        pair("twilio_receiver", "+15550002"),
        pair("twilio_account", "AC42"),
        pair("twilio_api_key", "SECRET-REDACTED"),
    ]);
    match prepare_channel(ChannelId::Text, "job", 7, &s, BeepKind::Bell) {
        Ok(Delivery::Text { account, api_key, url, body }) => {
            assert_eq!(account, "AC42");
            assert_eq!(api_key, "SECRET-REDACTED");
            assert_eq!(url, "https://api.twilio.com/2010-04-01/Accounts/AC42/Messages.json");
            assert_eq!(
                body,
                "To=%2B15550002&From=%2B15550001&Body=Your+program+job+has+finished+after+7+minutes"
            );
        },
        other => panic!("expected a text delivery, got {:?}", other.is_ok()),
    }
}

#[test]
fn text_missing_credentials_report_in_lookup_order() {
    let s = settings_of(vec![pair("twilio_sender", "+15550001")]);
    match prepare_channel(ChannelId::Text, "job", 7, &s, BeepKind::Bell) {
        Err(DeliveryError::MissingCredential(key)) => assert_eq!(key, "TWILIO_RECEIVER"),
        other => panic!("expected a missing credential, got {:?}", other.is_ok()),
    }
}

#[test]
fn wsl_kernels_shell_out_others_ring_the_bell() {
    assert_eq!(beep_kind_for("5.15.90.1-microsoft-standard-WSL2"), BeepKind::Shell);
    assert_eq!(beep_kind_for("6.1.0-generic"), BeepKind::Bell);
    assert_eq!(beep_kind_for(""), BeepKind::Bell);
    assert_eq!(beep_kind_for("WSL"), BeepKind::Shell);
}
