//! The decisions of the chat commands.
pub mod get_titles;
pub mod rip;
pub mod view_drives;
