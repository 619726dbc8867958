use cord_ripper::decimal::IntError;
use cord_ripper::discord::errors::DiscordError;
use cord_ripper::errors::CordRipperError;
use cord_ripper::makemkv::errors::{joined, IoKind, MakeMkvError};

#[test]
fn engine_errors_describe_themselves() {
    let cases = vec![
        (MakeMkvError::CommandExecutionError("x".to_string()), "Failed to execute MakeMKV command: x"),
        (MakeMkvError::InvalidOutputFormat("x".to_string()), "Invalid output format: x"),
        (MakeMkvError::FileNotFoundError("/p".to_string()), "File not found: /p"),
        (MakeMkvError::PermissionDenied("/p".to_string()), "Permission denied: /p"),
        (MakeMkvError::UnknownError, "Unknown error occurred"),
        (MakeMkvError::LockError, "Failed to lock drive"),
        (MakeMkvError::DriveInUseError(0), "Drive in use: 0"),
        (MakeMkvError::DriveInUseError(12), "Drive in use: 12"),
        (MakeMkvError::DriveInUseError(255), "Drive in use: 255"),
        (MakeMkvError::TempDirError, "Failed to create temporary directory"),
        (MakeMkvError::FailedToSaveDisc, "Failed to save disc"),
        (MakeMkvError::DriveError, "Drive failed to save disc due to drive error"),
        (MakeMkvError::OutputDirError, "Failed to create output directory"),
        (MakeMkvError::NoDrivesFound, "Could not find any drives"),
        (MakeMkvError::ParseError("x".to_string()), "Failed to parse MakeMKV output: x"),
        (MakeMkvError::NoArtifactProduced, "No artifact was produced"),
    ];
    for (error, text) in cases {
        assert_eq!(error.message(), text);
    }
}

#[test]
fn io_failures_become_engine_errors() {
    assert_eq!(MakeMkvError::from_io(IoKind::NotFound, "gone".to_string()), MakeMkvError::FileNotFoundError("gone".to_string()));
    assert_eq!(
        MakeMkvError::from_io(IoKind::PermissionDenied, "no".to_string()),
        MakeMkvError::PermissionDenied("no".to_string())
    );
    assert_eq!(MakeMkvError::from_io(IoKind::Other, "x".to_string()), MakeMkvError::UnknownError);
}

#[test]
fn number_faults_become_engine_errors() {
    for text in ["", "x", "256"] {
        let std_error = text.parse::<u8>().unwrap_err();
        let fault = match std_error.kind() {
            std::num::IntErrorKind::Empty => IntError::Empty,
            std::num::IntErrorKind::InvalidDigit => IntError::InvalidDigit,
            _ => IntError::TooLarge,
        };
        assert_eq!(MakeMkvError::from_int_error(fault), MakeMkvError::InvalidOutputFormat(std_error.to_string()));
    }
}

#[test]
fn front_end_errors_describe_themselves() {
    let cases = vec![
        (DiscordError::HttpRequestFailed("x".to_string()), "HTTP request failed: x"),
        (DiscordError::CommandInteractionResponseFailed("x".to_string()), "Failed to respond to commmand interaction: x"),
        (DiscordError::MessageInteractionResponseFailed("x".to_string()), "Failed to respond to modal interaction: x"),
        (DiscordError::ComponentInteractionResponseFailed("x".to_string()), "Failed to respond to component interaction: x"),
        (DiscordError::EditResponseFailed("x".to_string()), "Failed to edit response: x"),
        (DiscordError::EditMessageFailed("x".to_string()), "Failed to edit message: x"),
        (DiscordError::SendMessageFailed("x".to_string()), "Failed to send message: x"),
        (DiscordError::InvalidToken, "Invalid token provided"),
        (DiscordError::InvalidInteractionCall, "Invalid interaction call"),
        (DiscordError::InvalidComponentData, "Invalid Component Data"),
        (DiscordError::PermissionDenied, "Permission denied"),
        (DiscordError::Unexpected("x".to_string()), "Unexpected error occurred: x"),
        (DiscordError::DeferFailed("x".to_string()), "Failed to defer interaction: x"),
        (DiscordError::TaskCancelled, "Task was cancelled"),
        (DiscordError::MakeMkvError(MakeMkvError::DriveInUseError(2)), "MakeMKV error: Drive in use: 2"),
    ];
    for (error, text) in cases {
        assert_eq!(error.message(), text);
    }
}

#[test]
fn program_errors_describe_themselves() {
    assert_eq!(
        CordRipperError::MakeMkvError(MakeMkvError::NoDrivesFound).message(),
        "MakeMkv error: Could not find any drives"
    );
    assert_eq!(
        CordRipperError::DiscordError(DiscordError::TaskCancelled).message(),
        "Discord error: Task was cancelled"
    );
    assert_eq!(CordRipperError::UnexpectedError("x".to_string()).message(), "Unexpected error: x");
}

#[test]
fn errors_wrap_each_other() {
    assert_eq!(DiscordError::from(MakeMkvError::LockError), DiscordError::MakeMkvError(MakeMkvError::LockError));
    assert_eq!(CordRipperError::from(MakeMkvError::LockError), CordRipperError::MakeMkvError(MakeMkvError::LockError));
    assert_eq!(
        CordRipperError::from(DiscordError::InvalidToken),
        CordRipperError::DiscordError(DiscordError::InvalidToken)
    );
}

#[test]
fn joined_puts_two_texts_together() {
    assert_eq!(joined("a: ", "b"), "a: b");
    assert_eq!(joined("", ""), "");
}
