use cord_ripper::decimal::IntError;
use cord_ripper::discord::bot::bot_core::InteractionKind;
use cord_ripper::discord::commands::rip::{
    drive_from_choice, episode_range_text, parse_small, plan_episodes, plan_movie, run, selected_titles,
    Batch, BatchState, BatchStep, RipStage, MENU_LIMIT,
};
use cord_ripper::discord::errors::DiscordError;
use cord_ripper::makemkv::errors::MakeMkvError;
use cord_ripper::makemkv::makemkv_core::{Rip, RipOutcome, RipType};
use cord_ripper::makemkv::makemkv_helpers::get_last_episode_in_dir;

fn strings(v: &[&str]) -> Vec<String> {
    v.iter().map(|s| s.to_string()).collect()
}

fn done() -> RipOutcome {
    RipOutcome::Succeeded { elapsed: 1, bytes_moved: 1 }
}

fn failed() -> RipOutcome {
    RipOutcome::Failed { reason: MakeMkvError::DriveError }
}

#[test]
fn batch_of_two_after_episode_two() {
    let files = strings(&["Episode 1.mkv", "Episode 2.mkv"]);
    let last = get_last_episode_in_dir(Some(&files));
    assert_eq!(last, 2);
    let rips = plan_episodes("Bar", 1, 1, last, &vec![4, 7]).unwrap();
    assert_eq!(
        rips,
        vec![
            Rip { title: "Bar".to_string(), drive_number: 1, rip_type: RipType::Show { season: 1, episode: 3 }, title_id: 4 },
            Rip { title: "Bar".to_string(), drive_number: 1, rip_type: RipType::Show { season: 1, episode: 4 }, title_id: 7 },
        ]
    );
    let (mut batch, step) = Batch::begin(rips.len());
    assert_eq!(step, BatchStep::Run { index: 0 });
    assert_eq!(batch.report(&done()), BatchStep::Run { index: 1 });
    assert_eq!(batch.report(&done()), BatchStep::Completed);
    assert_eq!(batch.state, BatchState::Completed);
    assert_eq!(episode_range_text(last, rips.len()), Some("3-4".to_string()));
}

#[test]
fn failed_rip_does_not_stop_the_batch() {
    let (mut batch, _) = Batch::begin(3);
    assert_eq!(batch.report(&failed()), BatchStep::Run { index: 1 });
    assert_eq!(batch.report(&done()), BatchStep::Run { index: 2 });
    assert_eq!(batch.report(&failed()), BatchStep::Completed);
    assert_eq!(batch.report(&done()), BatchStep::Completed);
}

#[test]
fn cancelled_rip_stops_the_batch() {
    let (mut batch, _) = Batch::begin(3);
    assert_eq!(batch.report(&done()), BatchStep::Run { index: 1 });
    assert_eq!(batch.report(&RipOutcome::Cancelled), BatchStep::Aborted);
    assert_eq!(batch.started, 2);
    assert_eq!(batch.report(&done()), BatchStep::Aborted);
    assert_eq!(batch.report(&RipOutcome::Cancelled), BatchStep::Aborted);
    assert_eq!(batch.started, 2);
    assert_eq!(batch.state, BatchState::Aborted);
}

#[test]
fn empty_batch_is_complete() {
    let (mut batch, step) = Batch::begin(0);
    assert_eq!(step, BatchStep::Completed);
    assert_eq!(batch.report(&RipOutcome::Cancelled), BatchStep::Completed);
    assert_eq!(batch, Batch { total: 0, started: 0, state: BatchState::Completed });
}

#[test]
fn episodes_that_do_not_fit_are_not_planned() {
    assert_eq!(plan_episodes("Bar", 1, 1, 254, &vec![1, 2]), None);
    assert_eq!(plan_episodes("Bar", 1, 1, 255, &vec![1]), None);
    assert_eq!(plan_episodes("Bar", 1, 1, 255, &vec![]), Some(vec![]));
    let rips = plan_episodes("Bar", 1, 1, 254, &vec![9]).unwrap();
    assert_eq!(rips[0].episode(), Some(255));
    assert_eq!(rips[0].title_id, 9);
}

#[test]
fn movie_is_planned_from_its_title() {
    assert_eq!(
        plan_movie("Foo", 2, 3),
        Rip { title: "Foo".to_string(), drive_number: 2, rip_type: RipType::Movie, title_id: 3 }
    );
}

#[test]
fn episode_range_names_first_and_last() {
    assert_eq!(episode_range_text(0, 1), Some("1".to_string()));
    assert_eq!(episode_range_text(0, 0), Some("1".to_string()));
    assert_eq!(episode_range_text(9, 3), Some("10-12".to_string()));
    assert_eq!(episode_range_text(253, 2), Some("254-255".to_string()));
    assert_eq!(episode_range_text(254, 2), None);
    assert_eq!(episode_range_text(255, 0), None);
}

#[test]
fn chosen_values_become_titles() {
    assert_eq!(selected_titles(&strings(&["1", "x", "3", "", "256", "+4", "255"])), vec![1, 3, 4, 255]);
    assert_eq!(selected_titles(&strings(&[])), Vec::<u8>::new());
    assert_eq!(parse_small("12"), Ok(12));
    assert_eq!(parse_small("1 2"), Err(IntError::InvalidDigit));
}

#[test]
fn chosen_disc_becomes_a_drive() {
    assert_eq!(drive_from_choice("disc_1"), Ok(1));
    assert_eq!(drive_from_choice("disc_12"), Ok(12));
    assert_eq!(drive_from_choice("3"), Ok(3));
    assert_eq!(drive_from_choice("disc_"), Err(IntError::Empty));
    assert_eq!(drive_from_choice("disc_x"), Err(IntError::InvalidDigit));
    assert_eq!(drive_from_choice("disc_256"), Err(IntError::TooLarge));
    for value in ["disc_1", "1disc_2", "disc_disc_3", "didisc_sc_4", "disk_5", ""] {
        let expected = value.replace("disc_", "").parse::<u8>().ok();
        assert_eq!(drive_from_choice(value).ok(), expected, "{:?}", value);
    }
}

#[test]
fn interactions_open_stages() {
    assert_eq!(run(InteractionKind::Command, "rip"), Ok(RipStage::OfferDiscs));
    assert_eq!(run(InteractionKind::Component, "select_disc_to_rip"), Ok(RipStage::AskKind));
    assert_eq!(run(InteractionKind::Component, "movie_rip"), Ok(RipStage::AskMovieTitle));
    assert_eq!(run(InteractionKind::Component, "show_rip"), Ok(RipStage::AskShowTitle));
    assert_eq!(run(InteractionKind::Component, "select_titles_to_rip"), Ok(RipStage::RipEpisodes));
    assert_eq!(run(InteractionKind::Component, "select_title_to_rip"), Ok(RipStage::RipMovie));
    assert_eq!(run(InteractionKind::Modal, "get_title_of_movie_rip"), Ok(RipStage::OfferMovieTitles));
    assert_eq!(run(InteractionKind::Modal, "get_title_of_show_rip"), Ok(RipStage::OfferShowTitles));
    assert_eq!(run(InteractionKind::Component, "cancel_rip"), Err(DiscordError::InvalidInteractionCall));
    assert_eq!(run(InteractionKind::Modal, "movie_rip"), Err(DiscordError::InvalidInteractionCall));
    assert_eq!(run(InteractionKind::Other, "rip"), Err(DiscordError::InvalidInteractionCall));
}

#[test]
fn menu_limit_is_that_of_the_platform() {
    assert_eq!(MENU_LIMIT, 25);
}
