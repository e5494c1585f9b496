use mess::encode::{form_encode, json_escape, slack_body, twilio_form_body, twilio_url};

#[test]
fn json_escaping_handles_quotes_and_controls() {
    assert_eq!(json_escape("plain"), "plain");
    assert_eq!(json_escape("say \"hi\""), "say \\\"hi\\\"");
    assert_eq!(json_escape("a\\b"), "a\\\\b");
    assert_eq!(json_escape("line\nbreak\ttab\rret"), "line\\nbreak\\ttab\\rret");
    assert_eq!(json_escape("\u{8}\u{c}"), "\\b\\f");
    assert_eq!(json_escape("\u{1}\u{1f}"), "\\u0001\\u001f");
    assert_eq!(json_escape("héllo"), "héllo");
}

#[test]
fn slack_body_is_the_exact_json_payload() {
    assert_eq!(
        slack_body("C123", "done \"now\""),
        "{\"channel\":\"C123\",\"text\":\"done \\\"now\\\"\"}"
    );
}

#[test]
fn form_encoding_keeps_unreserved_bytes_only() {
    assert_eq!(form_encode("abcXYZ019*-._"), "abcXYZ019*-._");
    assert_eq!(form_encode("a b"), "a+b");
    assert_eq!(form_encode("a+b"), "a%2Bb");
    assert_eq!(form_encode("a&b=c"), "a%26b%3Dc");
    assert_eq!(form_encode("héllo"), "h%C3%A9llo");
}

#[test]
fn twilio_url_embeds_the_account() {
    assert_eq!(
        twilio_url("AC123"),
        "https://api.twilio.com/2010-04-01/Accounts/AC123/Messages.json"
    );
}

#[test]
fn twilio_form_body_orders_to_from_body() {
    assert_eq!(
        twilio_form_body("+1555", "+1666", "hi there"),
        "To=%2B1555&From=%2B1666&Body=hi+there"
    );
}
