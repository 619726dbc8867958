//! What can go wrong while driving the ripping tool.
use crate::decimal::{decimal_digits, to_decimal, IntError};
use crate::text::text_of;
use vstd::prelude::*;
use vstd::string::StringExecFns;

verus! {

/// A result of the ripping engine.
pub type Result<T> = std::result::Result<T, MakeMkvError>;

/// An error of the ripping engine.
#[derive(Debug, PartialEq, Eq)]
pub enum MakeMkvError {
    /// The tool could not be launched.
    CommandExecutionError(String),
    /// The tool's output is not what its format promises.
    InvalidOutputFormat(String),
    FileNotFoundError(String),
    PermissionDenied(String),
    /// The tool failed for a reason that its output does not tell.
    UnknownError,
    LockError,
    /// The drive is claimed by another rip.
    DriveInUseError(u8),
    /// The staging directory could not be made or read.
    TempDirError,
    /// The tool reported that it could not save the title, or the artifact
    /// could not be measured or moved.
    FailedToSaveDisc,
    /// The drive could not open the disc; waiting or cycling the tray may help.
    DriveError,
    /// The destination directory could not be made.
    OutputDirError,
    NoDrivesFound,
    /// The tool's description of a disc could not be read.
    ParseError(String),
    /// The tool reported success but left no media file in the staging directory.
    NoArtifactProduced,
}

/// A `MakeMkvError` with its texts as character sequences.
pub enum MakeMkvErrorModel {
    CommandExecutionError(Seq<char>),
    InvalidOutputFormat(Seq<char>),
    FileNotFoundError(Seq<char>),
    PermissionDenied(Seq<char>),
    UnknownError,
    LockError,
    DriveInUseError(u8),
    TempDirError,
    FailedToSaveDisc,
    DriveError,
    OutputDirError,
    NoDrivesFound,
    ParseError(Seq<char>),
    NoArtifactProduced,
}

impl View for MakeMkvError {
    type V = MakeMkvErrorModel;

    open spec fn view(&self) -> MakeMkvErrorModel {
        match *self {
            MakeMkvError::CommandExecutionError(s) => MakeMkvErrorModel::CommandExecutionError(s@),
            MakeMkvError::InvalidOutputFormat(s) => MakeMkvErrorModel::InvalidOutputFormat(s@),
            MakeMkvError::FileNotFoundError(s) => MakeMkvErrorModel::FileNotFoundError(s@),
            MakeMkvError::PermissionDenied(s) => MakeMkvErrorModel::PermissionDenied(s@),
            MakeMkvError::UnknownError => MakeMkvErrorModel::UnknownError,
            MakeMkvError::LockError => MakeMkvErrorModel::LockError,
            MakeMkvError::DriveInUseError(d) => MakeMkvErrorModel::DriveInUseError(d),
            MakeMkvError::TempDirError => MakeMkvErrorModel::TempDirError,
            MakeMkvError::FailedToSaveDisc => MakeMkvErrorModel::FailedToSaveDisc,
            MakeMkvError::DriveError => MakeMkvErrorModel::DriveError,
            MakeMkvError::OutputDirError => MakeMkvErrorModel::OutputDirError,
            MakeMkvError::NoDrivesFound => MakeMkvErrorModel::NoDrivesFound,
            MakeMkvError::ParseError(s) => MakeMkvErrorModel::ParseError(s@),
            MakeMkvError::NoArtifactProduced => MakeMkvErrorModel::NoArtifactProduced,
        }
    }
}

/// The text that describes a failure to read a number.
pub open spec fn int_error_text(e: IntError) -> Seq<char> {
    match e {
        IntError::Empty => "cannot parse integer from empty string"@,
        IntError::InvalidDigit => "invalid digit found in string"@,
        IntError::TooLarge => "number too large to fit in target type"@,
    }
}

/// The text that describes `e` to a person.
pub open spec fn message_text(e: MakeMkvErrorModel) -> Seq<char> {
    match e {
        MakeMkvErrorModel::CommandExecutionError(s) => "Failed to execute MakeMKV command: "@ + s,
        MakeMkvErrorModel::InvalidOutputFormat(s) => "Invalid output format: "@ + s,
        MakeMkvErrorModel::FileNotFoundError(s) => "File not found: "@ + s,
        MakeMkvErrorModel::PermissionDenied(s) => "Permission denied: "@ + s,
        MakeMkvErrorModel::UnknownError => "Unknown error occurred"@,
        MakeMkvErrorModel::LockError => "Failed to lock drive"@,
        MakeMkvErrorModel::DriveInUseError(d) => "Drive in use: "@ + decimal_digits(d as nat),
        MakeMkvErrorModel::TempDirError => "Failed to create temporary directory"@,
        MakeMkvErrorModel::FailedToSaveDisc => "Failed to save disc"@,
        MakeMkvErrorModel::DriveError => "Drive failed to save disc due to drive error"@,
        MakeMkvErrorModel::OutputDirError => "Failed to create output directory"@,
        MakeMkvErrorModel::NoDrivesFound => "Could not find any drives"@,
        MakeMkvErrorModel::ParseError(s) => "Failed to parse MakeMKV output: "@ + s,
        MakeMkvErrorModel::NoArtifactProduced => "No artifact was produced"@,
    }
}

/// The kind of an I/O failure, as far as the engine tells kinds apart.
#[derive(Clone, Copy, Debug, PartialEq, Eq, Structural)]
pub enum IoKind {
    NotFound,
    PermissionDenied,
    Other,
}

/// `prefix` followed by `rest`.
pub fn joined(prefix: &str, rest: &str) -> (s: String)
    ensures
        s@ == prefix@ + rest@,
{
    let mut s = prefix.to_owned();
    s.append(rest);
    s
}

impl MakeMkvError {
    /// The text that describes the error to a person.
    pub fn message(&self) -> (s: String)
        ensures
            s@ == message_text(self@),
    {
        match self {
            MakeMkvError::CommandExecutionError(s) => joined(
                "Failed to execute MakeMKV command: ",
                s.as_str(),
            ),
            MakeMkvError::InvalidOutputFormat(s) => joined("Invalid output format: ", s.as_str()),
            MakeMkvError::FileNotFoundError(s) => joined("File not found: ", s.as_str()),
            MakeMkvError::PermissionDenied(s) => joined("Permission denied: ", s.as_str()),
            MakeMkvError::UnknownError => "Unknown error occurred".to_owned(),
            MakeMkvError::LockError => "Failed to lock drive".to_owned(),
            MakeMkvError::DriveInUseError(d) => {
                let digits = text_of(&to_decimal(*d as u64));
                joined("Drive in use: ", digits.as_str())
            },
            MakeMkvError::TempDirError => "Failed to create temporary directory".to_owned(),
            MakeMkvError::FailedToSaveDisc => "Failed to save disc".to_owned(),
            MakeMkvError::DriveError => "Drive failed to save disc due to drive error".to_owned(),
            MakeMkvError::OutputDirError => "Failed to create output directory".to_owned(),
            MakeMkvError::NoDrivesFound => "Could not find any drives".to_owned(),
            MakeMkvError::ParseError(s) => joined("Failed to parse MakeMKV output: ", s.as_str()),
            MakeMkvError::NoArtifactProduced => "No artifact was produced".to_owned(),
        }
    }

    /// The error that an I/O failure of kind `kind`, described by `text`, becomes.
    pub fn from_io(kind: IoKind, text: String) -> (e: MakeMkvError)
        ensures
            e@ == (match kind {
                IoKind::NotFound => MakeMkvErrorModel::FileNotFoundError(text@),
                IoKind::PermissionDenied => MakeMkvErrorModel::PermissionDenied(text@),
                IoKind::Other => MakeMkvErrorModel::UnknownError,
            }),
    {
        match kind {
            IoKind::NotFound => MakeMkvError::FileNotFoundError(text),
            IoKind::PermissionDenied => MakeMkvError::PermissionDenied(text),
            IoKind::Other => MakeMkvError::UnknownError,
        }
    }

    /// The error that a number which could not be read becomes.
    pub fn from_int_error(e: IntError) -> (r: MakeMkvError)
        ensures
            r@ == MakeMkvErrorModel::InvalidOutputFormat(int_error_text(e)),
    {
        match e {
            IntError::Empty => MakeMkvError::InvalidOutputFormat(
                "cannot parse integer from empty string".to_owned(),
            ),
            IntError::InvalidDigit => MakeMkvError::InvalidOutputFormat(
                "invalid digit found in string".to_owned(),
            ),
            IntError::TooLarge => MakeMkvError::InvalidOutputFormat(
                "number too large to fit in target type".to_owned(),
            ),
        }
    }
}

} // verus!
