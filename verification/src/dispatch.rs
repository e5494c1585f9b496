//! The notification dispatcher: compares elapsed time against the threshold
//! and prepares one delivery per configured channel, in list order. Each
//! channel is prepared independently: a missing or unusable credential for
//! one channel never drops a later one.

use vstd::prelude::*;

use crate::channels::ChannelId;
use crate::encode::{slack_body, slack_body_text, twilio_form_body, twilio_form_text, twilio_url, twilio_url_text};
use crate::errors::{DeliveryError, DeliveryErrorView};
use crate::settings::Settings;
use crate::text::{build_message, dec_value, is_u64_text, message_text, parse_u64, u64_digits};

verus! {

/// How the beep channel sounds on this machine.
#[derive(Clone, Copy, PartialEq, Eq, Structural, Debug)]
pub enum BeepKind {
    /// Shell out to the host's beep command (the WSL compatibility layer).
    Shell,
    /// Emit the terminal bell control character.
    Bell,
}

/// Whether a kernel release string carries the WSL marker.
pub open spec fn wsl_marker(s: Seq<char>) -> bool {
    exists|i: int|
        0 <= i && i + 3 <= s.len() && #[trigger] s[i] == 'W' && s[i + 1] == 'S' && s[i + 2] == 'L'
}

/// Decides how to beep for a given kernel release string: shell out exactly
/// when the string carries the WSL marker.
pub fn beep_kind_for(kernel_release: &str) -> (r: BeepKind)
    ensures
        (r == BeepKind::Shell) <==> wsl_marker(kernel_release@),
{
    let n = kernel_release.unicode_len();
    if n < 3 {
        return BeepKind::Bell;
    }
    let mut i: usize = 0;
    while i < n - 2
        invariant
            n == kernel_release@.len(),
            3 <= n,
            i <= n - 2,
            forall|j: int|
                0 <= j < i ==> !(#[trigger] kernel_release@[j] == 'W' && kernel_release@[j + 1]
                    == 'S' && kernel_release@[j + 2] == 'L'),
        decreases n - i,
    {
        if kernel_release.get_char(i) == 'W' && kernel_release.get_char(i + 1) == 'S'
            && kernel_release.get_char(i + 2) == 'L' {
            return BeepKind::Shell;
        }
        i += 1;
    }
    BeepKind::Bell
}

/// Relies on nix::sys::utsname::uname: reads the running kernel's
/// identification and yields its release string when it is valid Unicode.
#[verifier::external_body]
fn kernel_release() -> (r: Option<String>)
{
    match nix::sys::utsname::uname() {
        Ok(u) => u.release().to_str().map(|s| s.to_string()),
        Err(_) => None,
    }
}

/// Decides how to beep on the running machine. The kernel string comes from
/// the system, so the outcome is exactly `beep_kind_for` of whatever string
/// the kernel reported, the bell if none could be read.
pub fn detect_beep_kind() -> BeepKind {
    match kernel_release() {
        Some(rel) => beep_kind_for(rel.as_str()),
        None => BeepKind::Bell,
    }
}

/// One prepared delivery, ready for its transport.
pub enum Delivery {
    /// A desktop pop-up with the message text.
    Desktop { message: String },
    /// An audible beep.
    Beep { kind: BeepKind },
    /// A chat message through the bot API.
    Discord { token: String, channel_id: u64, message: String },
    /// A JSON post to the chat-post endpoint.
    Slack { token: String, body: String },
    /// A form post to the SMS endpoint.
    Text { account: String, api_key: String, url: String, body: String },
}

/// The view of a prepared delivery.
pub enum DeliveryView {
    Desktop { message: Seq<char> },
    Beep { kind: BeepKind },
    Discord { token: Seq<char>, channel_id: u64, message: Seq<char> },
    Slack { token: Seq<char>, body: Seq<char> },
    Text { account: Seq<char>, api_key: Seq<char>, url: Seq<char>, body: Seq<char> },
}

impl View for Delivery {
    type V = DeliveryView;

    open spec fn view(&self) -> DeliveryView {
        match self {
            Delivery::Desktop { message } => DeliveryView::Desktop { message: message@ },
            Delivery::Beep { kind } => DeliveryView::Beep { kind: *kind },
            Delivery::Discord { token, channel_id, message } => DeliveryView::Discord {
                token: token@,
                channel_id: *channel_id,
                message: message@,
            },
            Delivery::Slack { token, body } => DeliveryView::Slack {
                token: token@,
                body: body@,
            },
            Delivery::Text { account, api_key, url, body } => DeliveryView::Text {
                account: account@,
                api_key: api_key@,
                url: url@,
                body: body@,
            },
        }
    }
}

/// The view of one channel's preparation outcome.
pub open spec fn prep_view(r: Result<Delivery, DeliveryError>) -> Result<
    DeliveryView,
    DeliveryErrorView,
> {
    match r {
        Ok(d) => Ok(d@),
        Err(e) => Err(e@),
    }
}

/// What preparing one channel yields: the payload when every required
/// credential is present and usable, else exactly the failing key.
pub open spec fn prepare_channel_spec(
    c: ChannelId,
    program: Seq<char>,
    secs: u64,
    s: Map<Seq<char>, Seq<char>>,
    beep: BeepKind,
) -> Result<DeliveryView, DeliveryErrorView> {
    match c {
        ChannelId::Desktop => Ok(
            DeliveryView::Desktop { message: message_text(program, secs as nat) },
        ),
        ChannelId::Beep => Ok(DeliveryView::Beep { kind: beep }),
        ChannelId::Discord => if !s.contains_key("DISCORD_TOKEN"@) {
            Err(DeliveryErrorView::MissingCredential("DISCORD_TOKEN"@))
        } else if !s.contains_key("DISCORD_CHANNEL_ID"@) {
            Err(DeliveryErrorView::MissingCredential("DISCORD_CHANNEL_ID"@))
        } else if !is_u64_text(s["DISCORD_CHANNEL_ID"@]) {
            Err(DeliveryErrorView::InvalidCredential("DISCORD_CHANNEL_ID"@))
        } else {
            Ok(
                DeliveryView::Discord {
                    token: s["DISCORD_TOKEN"@],
                    channel_id: dec_value(u64_digits(s["DISCORD_CHANNEL_ID"@])) as u64,
                    message: message_text(program, secs as nat),
                },
            )
        },
        ChannelId::Slack => if !s.contains_key("SLACK_CHANNEL_ID"@) {
            Err(DeliveryErrorView::MissingCredential("SLACK_CHANNEL_ID"@))
        } else if !s.contains_key("SLACK_BOT_TOKEN"@) {
            Err(DeliveryErrorView::MissingCredential("SLACK_BOT_TOKEN"@))
        } else {
            Ok(
                DeliveryView::Slack {
                    token: s["SLACK_BOT_TOKEN"@],
                    body: slack_body_text(
                        s["SLACK_CHANNEL_ID"@],
                        message_text(program, secs as nat),
                    ),
                },
            )
        },
        ChannelId::Text => if !s.contains_key("TWILIO_SENDER"@) {
            Err(DeliveryErrorView::MissingCredential("TWILIO_SENDER"@))
        } else if !s.contains_key("TWILIO_RECEIVER"@) {
            Err(DeliveryErrorView::MissingCredential("TWILIO_RECEIVER"@))
        } else if !s.contains_key("TWILIO_ACCOUNT"@) {
            Err(DeliveryErrorView::MissingCredential("TWILIO_ACCOUNT"@))
        } else if !s.contains_key("TWILIO_API_KEY"@) {
            Err(DeliveryErrorView::MissingCredential("TWILIO_API_KEY"@))
        } else {
            Ok(
                DeliveryView::Text {
                    account: s["TWILIO_ACCOUNT"@],
                    api_key: s["TWILIO_API_KEY"@],
                    url: twilio_url_text(s["TWILIO_ACCOUNT"@]),
                    body: twilio_form_text(
                        s["TWILIO_RECEIVER"@],
                        s["TWILIO_SENDER"@],
                        message_text(program, secs as nat),
                    ),
                },
            )
        },
    }
}

/// Prepares one channel's delivery from the settings.
pub fn prepare_channel(
    c: ChannelId,
    program: &str,
    secs: u64,
    settings: &Settings,
    beep: BeepKind,
) -> (r: Result<Delivery, DeliveryError>)
    ensures
        prep_view(r) == prepare_channel_spec(c, program@, secs, settings@, beep),
{
    match c {
        ChannelId::Desktop => Ok(Delivery::Desktop { message: build_message(program, secs) }),
        ChannelId::Beep => Ok(Delivery::Beep { kind: beep }),
        ChannelId::Discord => {
            let token = match settings.get("DISCORD_TOKEN") {
                Some(v) => v,
                None => {
                    return Err(
                        DeliveryError::MissingCredential(String::from_str("DISCORD_TOKEN")),
                    );
                },
            };
            let chan = match settings.get("DISCORD_CHANNEL_ID") {
                Some(v) => v,
                None => {
                    return Err(
                        DeliveryError::MissingCredential(String::from_str("DISCORD_CHANNEL_ID")),
                    );
                },
            };
            let channel_id = match parse_u64(chan.as_str()) {
                Some(n) => n,
                None => {
                    return Err(
                        DeliveryError::InvalidCredential(String::from_str("DISCORD_CHANNEL_ID")),
                    );
                },
            };
            Ok(Delivery::Discord { token, channel_id, message: build_message(program, secs) })
        },
        ChannelId::Slack => {
            let channel = match settings.get("SLACK_CHANNEL_ID") {
                Some(v) => v,
                None => {
                    return Err(
                        DeliveryError::MissingCredential(String::from_str("SLACK_CHANNEL_ID")),
                    );
                },
            };
            let token = match settings.get("SLACK_BOT_TOKEN") {
                Some(v) => v,
                None => {
                    return Err(
                        DeliveryError::MissingCredential(String::from_str("SLACK_BOT_TOKEN")),
                    );
                },
            };
            let message = build_message(program, secs);
            let body = slack_body(channel.as_str(), message.as_str());
            Ok(Delivery::Slack { token, body })
        },
        ChannelId::Text => {
            let sender = match settings.get("TWILIO_SENDER") {
                Some(v) => v,
                None => {
                    return Err(
                        DeliveryError::MissingCredential(String::from_str("TWILIO_SENDER")),
                    );
                },
            };
            let receiver = match settings.get("TWILIO_RECEIVER") {
                Some(v) => v,
                None => {
                    return Err(
                        DeliveryError::MissingCredential(String::from_str("TWILIO_RECEIVER")),
                    );
                },
            };
            let account = match settings.get("TWILIO_ACCOUNT") {
                Some(v) => v,
                None => {
                    return Err(
                        DeliveryError::MissingCredential(String::from_str("TWILIO_ACCOUNT")),
                    );
                },
            };
            let api_key = match settings.get("TWILIO_API_KEY") {
                Some(v) => v,
                None => {
                    return Err(
                        DeliveryError::MissingCredential(String::from_str("TWILIO_API_KEY")),
                    );
                },
            };
            let message = build_message(program, secs);
            let url = twilio_url(account.as_str());
            let body = twilio_form_body(receiver.as_str(), sender.as_str(), message.as_str());
            Ok(Delivery::Text { account, api_key, url, body })
        },
    }
}

/// Compares the elapsed time against the threshold and prepares the fan-out.
/// Below the threshold nothing is prepared; at or above it every configured
/// channel gets exactly one entry, in list order, and a failure preparing
/// one channel never drops a later one.
pub fn plan_dispatch(
    program: &str,
    elapsed_secs: u64,
    threshold_secs: u64,
    settings: &Settings,
    channels: &Vec<ChannelId>,
    beep: BeepKind,
) -> (r: Vec<(ChannelId, Result<Delivery, DeliveryError>)>)
    ensures
        elapsed_secs < threshold_secs ==> r@.len() == 0,
        elapsed_secs >= threshold_secs ==> r@.len() == channels@.len(),
        elapsed_secs >= threshold_secs ==> forall|i: int|
            0 <= i < channels@.len() ==> (#[trigger] r@[i]).0 == channels@[i] && prep_view(
                r@[i].1,
            ) == prepare_channel_spec(channels@[i], program@, elapsed_secs, settings@, beep),
{
    let mut r: Vec<(ChannelId, Result<Delivery, DeliveryError>)> = Vec::new();
    if elapsed_secs < threshold_secs {
        return r;
    }
    let mut i: usize = 0;
    while i < channels.len()
        invariant
            i <= channels@.len(),
            r@.len() == i,
            forall|j: int|
                0 <= j < i ==> (#[trigger] r@[j]).0 == channels@[j] && prep_view(r@[j].1)
                    == prepare_channel_spec(
                    channels@[j],
                    program@,
                    elapsed_secs,
                    settings@,
                    beep,
                ),
        decreases channels.len() - i,
    {
        let c = channels[i];
        let prepared = prepare_channel(c, program, elapsed_secs, settings, beep);
        r.push((c, prepared));
        i += 1;
    }
    r
}

} // verus!
