use cord_ripper::decimal::IntError;
use cord_ripper::discord::bot::bot_core::{handle_interaction, parse_guild_id, Handler, InteractionKind};
use cord_ripper::discord::errors::DiscordError;

#[test]
fn commands_go_to_their_handlers() {
    assert_eq!(handle_interaction(InteractionKind::Command, "rip"), Ok(Handler::Rip));
    assert_eq!(handle_interaction(InteractionKind::Command, "view_drives"), Ok(Handler::ViewDrives));
    assert_eq!(handle_interaction(InteractionKind::Command, "eject_disc"), Ok(Handler::EjectDisc));
    assert_eq!(handle_interaction(InteractionKind::Command, "get_titles"), Ok(Handler::GetTitles));
}

#[test]
fn unknown_command_is_refused() {
    assert_eq!(handle_interaction(InteractionKind::Command, "Rip"), Err(DiscordError::InvalidInteractionCall));
    assert_eq!(handle_interaction(InteractionKind::Command, ""), Err(DiscordError::InvalidInteractionCall));
    assert_eq!(handle_interaction(InteractionKind::Command, "movie_rip"), Err(DiscordError::InvalidInteractionCall));
}

#[test]
fn components_go_to_their_handlers() {
    assert_eq!(handle_interaction(InteractionKind::Component, "select_disc_to_grab_titles"), Ok(Handler::GetTitles));
    for id in ["select_disc_to_rip", "movie_rip", "show_rip", "select_titles_to_rip", "select_title_to_rip"] {
        assert_eq!(handle_interaction(InteractionKind::Component, id), Ok(Handler::Rip));
    }
}

#[test]
fn unknown_component_is_ignored() {
    assert_eq!(handle_interaction(InteractionKind::Component, "cancel_rip"), Ok(Handler::Nothing));
    assert_eq!(handle_interaction(InteractionKind::Component, "anything"), Ok(Handler::Nothing));
    assert_eq!(handle_interaction(InteractionKind::Component, "rip"), Ok(Handler::Nothing));
}

#[test]
fn modals_go_to_the_rip() {
    assert_eq!(handle_interaction(InteractionKind::Modal, "get_title_of_movie_rip"), Ok(Handler::Rip));
    assert_eq!(handle_interaction(InteractionKind::Modal, "get_title_of_show_rip"), Ok(Handler::Rip));
    assert_eq!(handle_interaction(InteractionKind::Modal, "other"), Err(DiscordError::InvalidInteractionCall));
}

#[test]
fn other_interactions_are_refused() {
    assert_eq!(handle_interaction(InteractionKind::Other, "rip"), Err(DiscordError::InvalidInteractionCall));
}

#[test]
fn guild_id_is_a_number() {
    assert_eq!(parse_guild_id("123456789012345678"), Ok(123456789012345678));
    assert_eq!(parse_guild_id("18446744073709551615"), Ok(u64::MAX));
    assert_eq!(parse_guild_id("18446744073709551616"), Err(IntError::TooLarge));
    assert_eq!(parse_guild_id("guild"), Err(IntError::InvalidDigit));
    assert_eq!(parse_guild_id(""), Err(IntError::Empty));
}
