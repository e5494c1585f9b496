//! The error taxonomy: configuration failures are fatal and stop the run
//! before the wrapped command is spawned; delivery failures are isolated to
//! one channel and never stop the others.

use vstd::prelude::*;

verus! {

/// A fatal configuration failure.
#[derive(Debug)]
pub enum ConfigError {
    /// The persistent source could not be read or parsed.
    UnreadableConfig,
    /// The `MESSENGERS` key is absent.
    MissingMessengers,
    /// A listed messenger is outside the known enumeration; carries the
    /// normalized name that was rejected.
    UnknownMessenger(String),
    /// The `DURATION` key is absent.
    MissingDuration,
    /// The `DURATION` value does not parse as an unsigned integer.
    InvalidDuration,
}

/// A non-fatal failure of one channel's delivery preparation.
#[derive(Debug)]
pub enum DeliveryError {
    /// A settings key the channel requires is absent; carries the key name.
    MissingCredential(String),
    /// A settings key the channel requires holds an unusable value; carries
    /// the key name.
    InvalidCredential(String),
}

/// The view of a delivery failure: the key name as a character sequence.
pub enum DeliveryErrorView {
    MissingCredential(Seq<char>),
    InvalidCredential(Seq<char>),
}

impl View for DeliveryError {
    type V = DeliveryErrorView;

    open spec fn view(&self) -> DeliveryErrorView {
        match self {
            DeliveryError::MissingCredential(key) => DeliveryErrorView::MissingCredential(key@),
            DeliveryError::InvalidCredential(key) => DeliveryErrorView::InvalidCredential(key@),
        }
    }
}

impl ConfigError {
    /// A one-line human-readable description.
    pub fn describe(&self) -> (r: String)
        ensures
            r@ == match self {
                ConfigError::UnreadableConfig => "Failed to load config file"@,
                ConfigError::MissingMessengers => "No messengers found!"@,
                ConfigError::UnknownMessenger(name) => "Messenger "@ + name@
                    + " not available!"@,
                ConfigError::MissingDuration => "No duration allowed found!"@,
                ConfigError::InvalidDuration => "Failed to parse DURATION to integer"@,
            },
    {
        match self {
            ConfigError::UnreadableConfig => String::from_str("Failed to load config file"),
            ConfigError::MissingMessengers => String::from_str("No messengers found!"),
            ConfigError::UnknownMessenger(name) => {
                let mut m = String::from_str("Messenger ");
                m.append(name.as_str());
                m.append(" not available!");
                proof {
                    assert(m@ =~= "Messenger "@ + name@ + " not available!"@);
                }
                m
            },
            ConfigError::MissingDuration => String::from_str("No duration allowed found!"),
            ConfigError::InvalidDuration => String::from_str(
                "Failed to parse DURATION to integer",
            ),
        }
    }
}

impl DeliveryError {
    /// A one-line human-readable description.
    pub fn describe(&self) -> (r: String)
        ensures
            r@ == match self {
                DeliveryError::MissingCredential(key) => "Missing credential "@ + key@,
                DeliveryError::InvalidCredential(key) => "Invalid credential "@ + key@,
            },
    {
        match self {
            DeliveryError::MissingCredential(key) => {
                let mut m = String::from_str("Missing credential ");
                m.append(key.as_str());
                m
            },
            DeliveryError::InvalidCredential(key) => {
                let mut m = String::from_str("Invalid credential ");
                m.append(key.as_str());
                m
            },
        }
    }
}

} // verus!
