//! Verified core of a countdown timer: time parsing and formatting,
//! configuration merging, interactive input state machines and screen layout.

pub mod clock;
pub mod config;
pub mod entry;
pub mod keys;
pub mod layout;
pub mod prompt;
pub mod session;
pub mod text;
