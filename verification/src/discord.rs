//! What the chat front end decides: which handler an interaction goes to,
//! and how a selection of titles becomes a batch of rips.
pub mod bot;
pub mod commands;
pub mod errors;
