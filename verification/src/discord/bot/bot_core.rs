//! Which handler an interaction goes to.
use crate::decimal::{parse_u64, parse_unsigned, IntError};
use crate::discord::errors::{DiscordError, DiscordErrorModel, Result};
use crate::text::{chars_of, same_text};
use vstd::prelude::*;

verus! {

/// The kinds of interaction that the chat platform sends.
#[derive(Debug, Clone, Copy, PartialEq, Eq, Structural)]
pub enum InteractionKind {
    /// A slash command; it is known by the command's name.
    Command,
    /// A button or a menu of a message; it is known by its custom id.
    Component,
    /// A submitted form; it is known by its custom id.
    Modal,
    /// Anything else.
    Other,
}

/// The handlers that an interaction can go to.
#[derive(Debug, Clone, Copy, PartialEq, Eq, Structural)]
pub enum Handler {
    Rip,
    ViewDrives,
    EjectDisc,
    GetTitles,
    /// The interaction is accepted and nothing is done: a button that a
    /// running rip listens to by itself, or a component nobody knows.
    Nothing,
}

/// The handler of the interaction of kind `kind` that is known as `id`; none
/// where the interaction is refused.
pub open spec fn route(kind: InteractionKind, id: Seq<char>) -> Option<Handler> {
    match kind {
        InteractionKind::Command => if id == "rip"@ {
            Some(Handler::Rip)
        } else if id == "view_drives"@ {
            Some(Handler::ViewDrives)
        } else if id == "eject_disc"@ {
            Some(Handler::EjectDisc)
        } else if id == "get_titles"@ {
            Some(Handler::GetTitles)
        } else {
            None
        },
        InteractionKind::Component => if id == "select_disc_to_grab_titles"@ {
            Some(Handler::GetTitles)
        } else if id == "select_disc_to_rip"@ || id == "movie_rip"@ || id == "show_rip"@ || id
            == "select_titles_to_rip"@ || id == "select_title_to_rip"@ {
            Some(Handler::Rip)
        } else {
            Some(Handler::Nothing)
        },
        InteractionKind::Modal => if id == "get_title_of_movie_rip"@ || id
            == "get_title_of_show_rip"@ {
            Some(Handler::Rip)
        } else {
            None
        },
        InteractionKind::Other => None,
    }
}

/// Decides which handler an interaction goes to. A command or a form that is
/// not known, and an interaction of another kind, are refused; a component
/// that is not known is accepted and ignored.
pub fn handle_interaction(kind: InteractionKind, id: &str) -> (r: Result<Handler>)
    ensures
        match route(kind, id@) {
            Some(handler) => r is Ok && r->Ok_0 == handler,
            None => r is Err && r->Err_0@ == DiscordErrorModel::InvalidInteractionCall,
        },
{
    match kind {
        InteractionKind::Command => {
            if same_text(id, "rip") {
                Ok(Handler::Rip)
            } else if same_text(id, "view_drives") {
                Ok(Handler::ViewDrives)
            } else if same_text(id, "eject_disc") {
                Ok(Handler::EjectDisc)
            } else if same_text(id, "get_titles") {
                Ok(Handler::GetTitles)
            } else {
                Err(DiscordError::InvalidInteractionCall)
            }
        },
        InteractionKind::Component => {
            if same_text(id, "select_disc_to_grab_titles") {
                Ok(Handler::GetTitles)
            } else if same_text(id, "select_disc_to_rip") || same_text(id, "movie_rip")
                || same_text(id, "show_rip") || same_text(id, "select_titles_to_rip") || same_text(
                id,
                "select_title_to_rip",
            ) {
                Ok(Handler::Rip)
            } else {
                Ok(Handler::Nothing)
            }
        },
        InteractionKind::Modal => {
            if same_text(id, "get_title_of_movie_rip") || same_text(id, "get_title_of_show_rip") {
                Ok(Handler::Rip)
            } else {
                Err(DiscordError::InvalidInteractionCall)
            }
        },
        InteractionKind::Other => Err(DiscordError::InvalidInteractionCall),
    }
}

/// Reads the id of the guild whose commands the bot registers.
pub fn parse_guild_id(text: &str) -> (r: std::result::Result<u64, IntError>)
    ensures
        match parse_unsigned(text@, u64::MAX as nat) {
            Ok(n) => r is Ok && r->Ok_0 == n,
            Err(e) => r == Err::<u64, IntError>(e),
        },
{
    parse_u64(&chars_of(text))
}

} // verus!
