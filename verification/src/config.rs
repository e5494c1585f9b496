//! Config resolution: the persistent sectioned key-value source plus the
//! reserved environment overlay become one settings map, and the map must
//! name the messenger list and the duration threshold or the run is refused
//! before the wrapped command ever starts.

use vstd::prelude::*;

use crate::channels::{
    all_known, channels_of, first_unknown, messenger_tokens, parse_messengers, ChannelId,
};
use crate::errors::ConfigError;
use crate::settings::{merged, pairs_view, reserved_overlay, resolve, Settings};
use crate::text::{dec_value, is_u64_text, parse_u64, str_eq, to_upper, u64_digits, upper_seq};

verus! {

/// What the persistent source parses to: its key-value pairs in file order,
/// section names dropped.
pub uninterp spec fn ini_pairs_of(text: Seq<char>) -> Seq<(Seq<char>, Seq<char>)>;

/// Whether the persistent source's text is well-formed sectioned key-value
/// text: the parse accepts or refuses a text by the text alone.
pub uninterp spec fn ini_accepts(text: Seq<char>) -> bool;

/// Relies on ini::Ini::load_from_str: parses sectioned key-value text and,
/// exactly when the text is well-formed, yields every (key, value) pair in
/// order with section names dropped. The result depends on the text alone.
#[verifier::external_body]
fn parse_config_pairs(text: &str) -> (r: Option<Vec<(String, String)>>)
    ensures
        (r is Some) == ini_accepts(text@),
        r matches Some(ps) ==> pairs_view(ps@) == ini_pairs_of(text@),
{
    match ini::Ini::load_from_str(text) {
        Ok(conf) => {
            let mut out: Vec<(String, String)> = Vec::new();
            for (_sec, prop) in &conf {
                for (k, v) in prop.iter() {
                    out.push((k.to_string(), v.to_string()));
                }
            }
            Some(out)
        },
        Err(_) => None,
    }
}

/// Builds the effective settings from the persistent source's text and the
/// raw process-environment pairs. Succeeds exactly when the text is
/// well-formed; fails only with the unreadable-config error.
pub fn load_settings(config_text: &str, env_pairs: &Vec<(String, String)>) -> (r: Result<
    Settings,
    ConfigError,
>)
    ensures
        (r is Ok) == ini_accepts(config_text@),
        r matches Ok(s) ==> s@ == merged(
            merged(Map::empty(), ini_pairs_of(config_text@)),
            reserved_overlay(pairs_view(env_pairs@)),
        ),
        r matches Err(e) ==> e is UnreadableConfig,
{
    match parse_config_pairs(config_text) {
        Some(ps) => Ok(resolve(&ps, env_pairs)),
        None => Err(ConfigError::UnreadableConfig),
    }
}

/// Whether the settings ask for verbose diagnostics.
pub open spec fn debug_enabled(s: Map<Seq<char>, Seq<char>>) -> bool {
    s.contains_key("DEBUG"@) && upper_seq(s["DEBUG"@]) == "TRUE"@
}

/// The validated configuration an invocation runs with.
#[derive(Debug)]
pub struct RunConfig {
    /// The channels to notify, in configured order.
    pub messengers: Vec<ChannelId>,
    /// The threshold in seconds at or above which a run is reported.
    pub duration: u64,
    /// Whether verbose diagnostics were asked for.
    pub debug: bool,
}

/// Validates the settings map: the messenger list must exist and name only
/// known channels, and the duration must exist and parse as an unsigned
/// integer. Exactly the offending key is reported otherwise.
pub fn resolve_config(settings: &Settings) -> (r: Result<RunConfig, ConfigError>)
    ensures
        !settings@.contains_key("MESSENGERS"@) ==> (r matches Err(e) && e is MissingMessengers),
        settings@.contains_key("MESSENGERS"@) && !all_known(
            messenger_tokens(settings@["MESSENGERS"@]),
        ) ==> (r matches Err(e) && e matches ConfigError::UnknownMessenger(name) && name@
            == first_unknown(messenger_tokens(settings@["MESSENGERS"@]))),
        settings@.contains_key("MESSENGERS"@) && all_known(
            messenger_tokens(settings@["MESSENGERS"@]),
        ) && !settings@.contains_key("DURATION"@) ==> (r matches Err(e) && e is MissingDuration),
        settings@.contains_key("MESSENGERS"@) && all_known(
            messenger_tokens(settings@["MESSENGERS"@]),
        ) && settings@.contains_key("DURATION"@) && !is_u64_text(settings@["DURATION"@]) ==> (
        r matches Err(e) && e is InvalidDuration),
        settings@.contains_key("MESSENGERS"@) && all_known(
            messenger_tokens(settings@["MESSENGERS"@]),
        ) && settings@.contains_key("DURATION"@) && is_u64_text(settings@["DURATION"@]) ==> (
        r matches Ok(c) && c.messengers@ == channels_of(
            messenger_tokens(settings@["MESSENGERS"@]),
        ) && c.duration as int == dec_value(u64_digits(settings@["DURATION"@])) && c.debug
            == debug_enabled(settings@)),
{
    let mess_value = match settings.get("MESSENGERS") {
        Some(v) => v,
        None => {
            return Err(ConfigError::MissingMessengers);
        },
    };
    let messengers = match parse_messengers(mess_value.as_str()) {
        Ok(cs) => cs,
        Err(e) => {
            return Err(e);
        },
    };
    let duration_value = match settings.get("DURATION") {
        Some(v) => v,
        None => {
            return Err(ConfigError::MissingDuration);
        },
    };
    let duration = match parse_u64(duration_value.as_str()) {
        Some(n) => n,
        None => {
            return Err(ConfigError::InvalidDuration);
        },
    };
    let debug = match settings.get("DEBUG") {
        Some(v) => str_eq(to_upper(v.as_str()).as_str(), "TRUE"),
        None => false,
    };
    Ok(RunConfig { messengers, duration, debug })
}

} // verus!
