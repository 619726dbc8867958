//! What can go wrong in the chat front end.
use crate::makemkv::errors::{joined, message_text, MakeMkvError, MakeMkvErrorModel};
use vstd::prelude::*;
use vstd::std_specs::convert::FromSpecImpl;

verus! {

/// A result of the chat front end.
pub type Result<T> = std::result::Result<T, DiscordError>;

/// An error of the chat front end.
#[derive(Debug, PartialEq, Eq)]
pub enum DiscordError {
    HttpRequestFailed(String),
    CommandInteractionResponseFailed(String),
    MessageInteractionResponseFailed(String),
    ComponentInteractionResponseFailed(String),
    EditResponseFailed(String),
    EditMessageFailed(String),
    SendMessageFailed(String),
    InvalidToken,
    /// The interaction names no command, component or modal that is known.
    InvalidInteractionCall,
    InvalidComponentData,
    PermissionDenied,
    Unexpected(String),
    DeferFailed(String),
    /// The rip, or the batch of rips, was cancelled.
    TaskCancelled,
    MakeMkvError(MakeMkvError),
}

/// A `DiscordError` with its texts as character sequences.
pub enum DiscordErrorModel {
    HttpRequestFailed(Seq<char>),
    CommandInteractionResponseFailed(Seq<char>),
    MessageInteractionResponseFailed(Seq<char>),
    ComponentInteractionResponseFailed(Seq<char>),
    EditResponseFailed(Seq<char>),
    EditMessageFailed(Seq<char>),
    SendMessageFailed(Seq<char>),
    InvalidToken,
    InvalidInteractionCall,
    InvalidComponentData,
    PermissionDenied,
    Unexpected(Seq<char>),
    DeferFailed(Seq<char>),
    TaskCancelled,
    MakeMkvError(MakeMkvErrorModel),
}

impl View for DiscordError {
    type V = DiscordErrorModel;

    open spec fn view(&self) -> DiscordErrorModel {
        match *self {
            DiscordError::HttpRequestFailed(s) => DiscordErrorModel::HttpRequestFailed(s@),
            DiscordError::CommandInteractionResponseFailed(s) =>
                DiscordErrorModel::CommandInteractionResponseFailed(s@),
            DiscordError::MessageInteractionResponseFailed(s) =>
                DiscordErrorModel::MessageInteractionResponseFailed(s@),
            DiscordError::ComponentInteractionResponseFailed(s) =>
                DiscordErrorModel::ComponentInteractionResponseFailed(s@),
            DiscordError::EditResponseFailed(s) => DiscordErrorModel::EditResponseFailed(s@),
            DiscordError::EditMessageFailed(s) => DiscordErrorModel::EditMessageFailed(s@),
            DiscordError::SendMessageFailed(s) => DiscordErrorModel::SendMessageFailed(s@),
            DiscordError::InvalidToken => DiscordErrorModel::InvalidToken,
            DiscordError::InvalidInteractionCall => DiscordErrorModel::InvalidInteractionCall,
            DiscordError::InvalidComponentData => DiscordErrorModel::InvalidComponentData,
            DiscordError::PermissionDenied => DiscordErrorModel::PermissionDenied,
            DiscordError::Unexpected(s) => DiscordErrorModel::Unexpected(s@),
            DiscordError::DeferFailed(s) => DiscordErrorModel::DeferFailed(s@),
            DiscordError::TaskCancelled => DiscordErrorModel::TaskCancelled,
            DiscordError::MakeMkvError(e) => DiscordErrorModel::MakeMkvError(e@),
        }
    }
}

/// The text that describes `e` to a person.
pub open spec fn discord_message_text(e: DiscordErrorModel) -> Seq<char> {
    match e {
        DiscordErrorModel::HttpRequestFailed(s) => "HTTP request failed: "@ + s,
        DiscordErrorModel::CommandInteractionResponseFailed(s) =>
            "Failed to respond to commmand interaction: "@ + s,
        DiscordErrorModel::MessageInteractionResponseFailed(s) =>
            "Failed to respond to modal interaction: "@ + s,
        DiscordErrorModel::ComponentInteractionResponseFailed(s) =>
            "Failed to respond to component interaction: "@ + s,
        DiscordErrorModel::EditResponseFailed(s) => "Failed to edit response: "@ + s,
        DiscordErrorModel::EditMessageFailed(s) => "Failed to edit message: "@ + s,
        DiscordErrorModel::SendMessageFailed(s) => "Failed to send message: "@ + s,
        DiscordErrorModel::InvalidToken => "Invalid token provided"@,
        DiscordErrorModel::InvalidInteractionCall => "Invalid interaction call"@,
        DiscordErrorModel::InvalidComponentData => "Invalid Component Data"@,
        DiscordErrorModel::PermissionDenied => "Permission denied"@,
        DiscordErrorModel::Unexpected(s) => "Unexpected error occurred: "@ + s,
        DiscordErrorModel::DeferFailed(s) => "Failed to defer interaction: "@ + s,
        DiscordErrorModel::TaskCancelled => "Task was cancelled"@,
        DiscordErrorModel::MakeMkvError(e) => "MakeMKV error: "@ + message_text(e),
    }
}

impl DiscordError {
    /// The text that describes the error to a person.
    pub fn message(&self) -> (s: String)
        ensures
            s@ == discord_message_text(self@),
    {
        match self {
            DiscordError::HttpRequestFailed(s) => joined("HTTP request failed: ", s.as_str()),
            DiscordError::CommandInteractionResponseFailed(s) => joined(
                "Failed to respond to commmand interaction: ",
                s.as_str(),
            ),
            DiscordError::MessageInteractionResponseFailed(s) => joined(
                "Failed to respond to modal interaction: ",
                s.as_str(),
            ),
            DiscordError::ComponentInteractionResponseFailed(s) => joined(
                "Failed to respond to component interaction: ",
                s.as_str(),
            ),
            DiscordError::EditResponseFailed(s) => joined("Failed to edit response: ", s.as_str()),
            DiscordError::EditMessageFailed(s) => joined("Failed to edit message: ", s.as_str()),
            DiscordError::SendMessageFailed(s) => joined("Failed to send message: ", s.as_str()),
            DiscordError::InvalidToken => "Invalid token provided".to_owned(),
            DiscordError::InvalidInteractionCall => "Invalid interaction call".to_owned(),
            DiscordError::InvalidComponentData => "Invalid Component Data".to_owned(),
            DiscordError::PermissionDenied => "Permission denied".to_owned(),
            DiscordError::Unexpected(s) => joined("Unexpected error occurred: ", s.as_str()),
            DiscordError::DeferFailed(s) => joined("Failed to defer interaction: ", s.as_str()),
            DiscordError::TaskCancelled => "Task was cancelled".to_owned(),
            DiscordError::MakeMkvError(e) => {
                let inner = e.message();
                joined("MakeMKV error: ", inner.as_str())
            },
        }
    }
}

impl From<MakeMkvError> for DiscordError {
    fn from(error: MakeMkvError) -> (r: DiscordError) {
        DiscordError::MakeMkvError(error)
    }
}

impl FromSpecImpl<MakeMkvError> for DiscordError {
    open spec fn obeys_from_spec() -> bool {
        true
    }

    open spec fn from_spec(error: MakeMkvError) -> DiscordError {
        DiscordError::MakeMkvError(error)
    }
}

} // verus!
