//! Wraps the run of an external command: resolves layered settings, decides
//! whether the run took long enough to notify about, and prepares one
//! notification per configured channel.

pub mod channels;
pub mod config;
pub mod dispatch;
pub mod encode;
pub mod errors;
pub mod settings;
pub mod text;
