//! The bot's own decisions.
pub mod bot_core;
