//! The errors of the whole program.
use crate::discord::errors::{discord_message_text, DiscordError, DiscordErrorModel};
use crate::makemkv::errors::{joined, message_text, MakeMkvError, MakeMkvErrorModel};
use vstd::prelude::*;
use vstd::std_specs::convert::FromSpecImpl;

verus! {

/// A result of the program.
pub type Result<T> = std::result::Result<T, CordRipperError>;

/// An error of the program: of the engine, of the front end, or of neither.
#[derive(Debug, PartialEq, Eq)]
pub enum CordRipperError {
    MakeMkvError(MakeMkvError),
    DiscordError(DiscordError),
    UnexpectedError(String),
}

/// A `CordRipperError` with its texts as character sequences.
pub enum CordRipperErrorModel {
    MakeMkvError(MakeMkvErrorModel),
    DiscordError(DiscordErrorModel),
    UnexpectedError(Seq<char>),
}

impl View for CordRipperError {
    type V = CordRipperErrorModel;

    open spec fn view(&self) -> CordRipperErrorModel {
        match *self {
            CordRipperError::MakeMkvError(e) => CordRipperErrorModel::MakeMkvError(e@),
            CordRipperError::DiscordError(e) => CordRipperErrorModel::DiscordError(e@),
            CordRipperError::UnexpectedError(s) => CordRipperErrorModel::UnexpectedError(s@),
        }
    }
}

/// The text that describes `e` to a person.
pub open spec fn error_text(e: CordRipperErrorModel) -> Seq<char> {
    match e {
        CordRipperErrorModel::MakeMkvError(e) => "MakeMkv error: "@ + message_text(e),
        CordRipperErrorModel::DiscordError(e) => "Discord error: "@ + discord_message_text(e),
        CordRipperErrorModel::UnexpectedError(s) => "Unexpected error: "@ + s,
    }
}

impl CordRipperError {
    /// The text that describes the error to a person.
    pub fn message(&self) -> (s: String)
        ensures
            s@ == error_text(self@),
    {
        match self {
            CordRipperError::MakeMkvError(e) => {
                let inner = e.message();
                joined("MakeMkv error: ", inner.as_str())
            },
            CordRipperError::DiscordError(e) => {
                let inner = e.message();
                joined("Discord error: ", inner.as_str())
            },
            CordRipperError::UnexpectedError(s) => joined("Unexpected error: ", s.as_str()),
        }
    }
}

impl From<MakeMkvError> for CordRipperError {
    fn from(error: MakeMkvError) -> (r: CordRipperError) {
        CordRipperError::MakeMkvError(error)
    }
}

impl FromSpecImpl<MakeMkvError> for CordRipperError {
    open spec fn obeys_from_spec() -> bool {
        true
    }

    open spec fn from_spec(error: MakeMkvError) -> CordRipperError {
        CordRipperError::MakeMkvError(error)
    }
}

impl From<DiscordError> for CordRipperError {
    fn from(error: DiscordError) -> (r: CordRipperError) {
        CordRipperError::DiscordError(error)
    }
}

impl FromSpecImpl<DiscordError> for CordRipperError {
    open spec fn obeys_from_spec() -> bool {
        true
    }

    open spec fn from_spec(error: DiscordError) -> CordRipperError {
        CordRipperError::DiscordError(error)
    }
}

} // verus!
