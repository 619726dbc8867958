//! From a selection of titles to rips: the rips of a batch of episodes, the
//! order in which a batch runs, and when it stops.
use crate::decimal::{
    all_digits, decimal_digits, digits_are_digits, is_digit, parse_u8, parse_unsigned,
    push_decimal, written_number_reads_back, IntError,
};
use crate::makemkv::disc_report::{Title, TitleModel};
use crate::makemkv::drive_report::{drive_views, Drive, DriveModel};
use std::collections::HashSet;
use crate::discord::bot::bot_core::InteractionKind;
use crate::discord::errors::{DiscordError, DiscordErrorModel};
use crate::makemkv::makemkv_core::{Rip, RipModel, RipOutcome, RipOutcomeModel, RipType};
use crate::text::texts;
use crate::text::{chars_of, push_text, remove_text, same_text, starts_with, text_of, without_text};
use vstd::prelude::*;

verus! {

/// The most entries that a selection menu offers.
pub const MENU_LIMIT: usize = 25;

/// The stages of the conversation that leads to a rip.
#[derive(Debug, Clone, Copy, PartialEq, Eq, Structural)]
pub enum RipStage {
    /// The command was given: offer the discs.
    OfferDiscs,
    /// A disc was chosen: ask whether a movie or a show is ripped.
    AskKind,
    /// A movie is ripped: ask for its title.
    AskMovieTitle,
    /// A show is ripped: ask for its title and season.
    AskShowTitle,
    /// The title of a movie was given: offer the titles of the disc.
    OfferMovieTitles,
    /// The title and season of a show were given: offer the titles of the disc.
    OfferShowTitles,
    /// One title was chosen: rip the movie.
    RipMovie,
    /// Titles were chosen: rip the episodes.
    RipEpisodes,
}

/// The stage that the interaction of kind `kind`, known as `id`, opens; none
/// where it opens no stage.
pub open spec fn stage_of(kind: InteractionKind, id: Seq<char>) -> Option<RipStage> {
    match kind {
        InteractionKind::Command => Some(RipStage::OfferDiscs),
        InteractionKind::Component => if id == "select_disc_to_rip"@ {
            Some(RipStage::AskKind)
        } else if id == "movie_rip"@ {
            Some(RipStage::AskMovieTitle)
        } else if id == "show_rip"@ {
            Some(RipStage::AskShowTitle)
        } else if id == "select_titles_to_rip"@ {
            Some(RipStage::RipEpisodes)
        } else if id == "select_title_to_rip"@ {
            Some(RipStage::RipMovie)
        } else {
            None
        },
        InteractionKind::Modal => if id == "get_title_of_movie_rip"@ {
            Some(RipStage::OfferMovieTitles)
        } else if id == "get_title_of_show_rip"@ {
            Some(RipStage::OfferShowTitles)
        } else {
            None
        },
        InteractionKind::Other => None,
    }
}

/// Decides which stage of the conversation an interaction opens, or refuses
/// the interaction.
pub fn run(kind: InteractionKind, id: &str) -> (r: std::result::Result<RipStage, DiscordError>)
    ensures
        match stage_of(kind, id@) {
            Some(stage) => r is Ok && r->Ok_0 == stage,
            None => r is Err && r->Err_0@ == DiscordErrorModel::InvalidInteractionCall,
        },
{
    match kind {
        InteractionKind::Command => Ok(RipStage::OfferDiscs),
        InteractionKind::Component => {
            if same_text(id, "select_disc_to_rip") {
                Ok(RipStage::AskKind)
            } else if same_text(id, "movie_rip") {
                Ok(RipStage::AskMovieTitle)
            } else if same_text(id, "show_rip") {
                Ok(RipStage::AskShowTitle)
            } else if same_text(id, "select_titles_to_rip") {
                Ok(RipStage::RipEpisodes)
            } else if same_text(id, "select_title_to_rip") {
                Ok(RipStage::RipMovie)
            } else {
                Err(DiscordError::InvalidInteractionCall)
            }
        },
        InteractionKind::Modal => {
            if same_text(id, "get_title_of_movie_rip") {
                Ok(RipStage::OfferMovieTitles)
            } else if same_text(id, "get_title_of_show_rip") {
                Ok(RipStage::OfferShowTitles)
            } else {
                Err(DiscordError::InvalidInteractionCall)
            }
        },
        InteractionKind::Other => Err(DiscordError::InvalidInteractionCall),
    }
}

/// The drive that a choice from the menu of discs names: the number in a
/// value such as `disc_2`.
pub open spec fn choice_drive(value: Seq<char>) -> Result<nat, IntError> {
    parse_unsigned(without_text(value, "disc_"@), 255)
}

/// The drive that a choice from the menu of discs names.
pub fn drive_from_choice(value: &str) -> (r: Result<u8, IntError>)
    ensures
        match choice_drive(value@) {
            Ok(n) => r is Ok && r->Ok_0 == n,
            Err(e) => r == Err::<u8, IntError>(e),
        },
{
    let number = remove_text(&chars_of(value), &chars_of("disc_"));
    parse_u8(&number)
}

/// Reads `text` as a number of at most 255.
pub fn parse_small(text: &str) -> (r: Result<u8, IntError>)
    ensures
        match parse_unsigned(text@, 255) {
            Ok(n) => r is Ok && r->Ok_0 == n,
            Err(e) => r == Err::<u8, IntError>(e),
        },
{
    parse_u8(&chars_of(text))
}

/// The titles that the chosen values name, in their order; a value that is
/// no number of at most 255 is passed over.
pub open spec fn chosen_titles(values: Seq<Seq<char>>) -> Seq<u8>
    decreases values.len(),
{
    if values.len() == 0 {
        Seq::empty()
    } else {
        let before = chosen_titles(values.drop_last());
        match parse_unsigned(values.last(), 255) {
            Ok(n) => before.push(n as u8),
            Err(_) => before,
        }
    }
}

/// The titles that the chosen values name.
pub fn selected_titles(values: &Vec<String>) -> (r: Vec<u8>)
    ensures
        r@ == chosen_titles(texts(values@)),
{
    let mut r: Vec<u8> = Vec::new();
    let mut i: usize = 0;
    let ghost all = texts(values@);
    assert(all.take(0).len() == 0);
    while i < values.len()
        invariant
            i <= values.len(),
            all == texts(values@),
            r@ == chosen_titles(all.take(i as int)),
        decreases values.len() - i,
    {
        assert(all.take(i + 1).drop_last() == all.take(i as int));
        assert(all.take(i + 1).last() == values[i as int]@);
        match parse_small(values[i].as_str()) {
            Ok(n) => {
                r.push(n);
            },
            Err(_) => {},
        }
        i += 1;
    }
    assert(all.take(i as int) == all);
    r
}

/// The requests that a vector of rips holds.
pub open spec fn requests(rips: Seq<Rip>) -> Seq<RipModel> {
    Seq::new(rips.len(), |i: int| rips[i]@)
}

/// The rips of a batch of episodes: one for each selected title, in the
/// order of the selection, numbered onward from the episode after
/// `last_episode`.
pub open spec fn planned_episodes(
    title: Seq<char>,
    drive_number: u8,
    season: u8,
    last_episode: u8,
    selected: Seq<u8>,
) -> Seq<RipModel> {
    Seq::new(
        selected.len(),
        |i: int|
            RipModel {
                title,
                drive_number,
                rip_type: RipType::Show { season, episode: (last_episode + 1 + i) as u8 },
                title_id: selected[i] as u16,
            },
    )
}

/// The episodes of a batch are new and differ from each other, as long as
/// their numbers fit.
pub proof fn planned_episodes_do_not_collide(
    title: Seq<char>,
    drive_number: u8,
    season: u8,
    last_episode: u8,
    selected: Seq<u8>,
)
    requires
        last_episode + selected.len() <= 255,
    ensures
        forall|i: int|
            0 <= i < selected.len() ==> (#[trigger] planned_episodes(
                title,
                drive_number,
                season,
                last_episode,
                selected,
            )[i]).rip_type == (RipType::Show { season, episode: (last_episode + 1 + i) as u8 })
                && last_episode < last_episode + 1 + i <= 255,
        forall|i: int, j: int|
            0 <= i < j < selected.len() ==> (#[trigger] planned_episodes(
                title,
                drive_number,
                season,
                last_episode,
                selected,
            )[i]).rip_type != (#[trigger] planned_episodes(
                title,
                drive_number,
                season,
                last_episode,
                selected,
            )[j]).rip_type,
{
}

/// The rips of a batch of episodes, or nothing where the episodes' numbers
/// would pass 255.
pub fn plan_episodes(
    title: &str,
    drive_number: u8,
    season: u8,
    last_episode: u8,
    selected: &Vec<u8>,
) -> (r: Option<Vec<Rip>>)
    ensures
        last_episode + selected.len() > 255 ==> r is None,
        last_episode + selected.len() <= 255 ==> r is Some && requests(r->Some_0@)
            == planned_episodes(title@, drive_number, season, last_episode, selected@),
{
    if selected.len() > 255 - last_episode as usize {
        return None;
    }
    let mut rips: Vec<Rip> = Vec::new();
    let mut i: usize = 0;
    let ghost plan = planned_episodes(title@, drive_number, season, last_episode, selected@);
    while i < selected.len()
        invariant
            i <= selected.len(),
            last_episode + selected.len() <= 255,
            plan == planned_episodes(title@, drive_number, season, last_episode, selected@),
            requests(rips@) == plan.take(i as int),
        decreases selected.len() - i,
    {
        let episode: u8 = last_episode + 1 + i as u8;
        let rip = Rip {
            title: title.to_owned(),
            drive_number,
            rip_type: RipType::Show { season, episode },
            title_id: selected[i] as u16,
        };
        assert(rip@ == plan[i as int]);
        let ghost before = requests(rips@);
        rips.push(rip);
        assert(requests(rips@) == before.push(plan[i as int]));
        assert(plan.take(i + 1) == plan.take(i as int).push(plan[i as int]));
        i += 1;
    }
    assert(plan.take(i as int) == plan);
    Some(rips)
}

/// The rip of a movie from the selected title.
pub fn plan_movie(title: &str, drive_number: u8, selected: u8) -> (r: Rip)
    ensures
        r@ == (RipModel {
            title: title@,
            drive_number,
            rip_type: RipType::Movie,
            title_id: selected as u16,
        }),
{
    Rip { title: title.to_owned(), drive_number, rip_type: RipType::Movie, title_id: selected as u16 }
}

/// Where a batch stands.
#[derive(Debug, Clone, Copy, PartialEq, Eq, Structural)]
pub enum BatchState {
    /// A rip of the batch runs.
    Running,
    /// Every rip of the batch has run.
    Completed,
    /// A rip was cancelled, and the rips after it were not started.
    Aborted,
}

/// What the front end does next with a batch.
#[derive(Debug, Clone, Copy, PartialEq, Eq, Structural)]
pub enum BatchStep {
    /// Run the rip at this place of the batch, with a way to cancel it.
    Run { index: usize },
    /// Report that the batch is done.
    Completed,
    /// Report that the batch was cancelled.
    Aborted,
}

/// A batch of rips that run one after the other: how many there are, and how
/// many were started.
#[derive(Debug, Clone, Copy, PartialEq, Eq, Structural)]
pub struct Batch {
    pub total: usize,
    pub started: usize,
    pub state: BatchState,
}

impl Batch {
    /// What holds of every batch: no more rips were started than it has,
    /// while it runs one was started, and it is complete only when all were.
    pub open spec fn well_formed(self) -> bool {
        &&& self.started <= self.total
        &&& self.state == BatchState::Running ==> self.started >= 1
        &&& self.state == BatchState::Completed ==> self.started == self.total
    }

    /// A batch of `total` rips, and its first step.
    pub open spec fn opened(total: usize) -> (Batch, BatchStep) {
        if total == 0 {
            (Batch { total, started: 0, state: BatchState::Completed }, BatchStep::Completed)
        } else {
            (Batch { total, started: 1, state: BatchState::Running }, BatchStep::Run { index: 0 })
        }
    }

    /// The batch after the rip that ran has ended, cancelled or not, and the
    /// step that follows. A cancelled rip ends the batch; any other end,
    /// failure too, lets the next rip start.
    pub open spec fn after(self, cancelled: bool) -> (Batch, BatchStep) {
        match self.state {
            BatchState::Completed => (self, BatchStep::Completed),
            BatchState::Aborted => (self, BatchStep::Aborted),
            BatchState::Running => if cancelled {
                (Batch { state: BatchState::Aborted, ..self }, BatchStep::Aborted)
            } else if self.started < self.total {
                (
                    Batch { started: (self.started + 1) as usize, ..self },
                    BatchStep::Run { index: self.started },
                )
            } else {
                (Batch { state: BatchState::Completed, ..self }, BatchStep::Completed)
            },
        }
    }

    /// The batch after the rips that ran have ended as `cancelled` says, one
    /// after the other.
    pub open spec fn after_all(self, cancelled: Seq<bool>) -> Batch
        decreases cancelled.len(),
    {
        if cancelled.len() == 0 {
            self
        } else {
            self.after_all(cancelled.drop_last()).after(cancelled.last()).0
        }
    }

    /// A batch of `total` rips, and its first step.
    pub fn begin(total: usize) -> (r: (Batch, BatchStep))
        ensures
            r == Batch::opened(total),
            r.0.well_formed(),
    {
        if total == 0 {
            (Batch { total, started: 0, state: BatchState::Completed }, BatchStep::Completed)
        } else {
            (Batch { total, started: 1, state: BatchState::Running }, BatchStep::Run { index: 0 })
        }
    }

    /// Takes note of how the rip that ran has ended, and says what follows.
    pub fn report(&mut self, outcome: &RipOutcome) -> (step: BatchStep)
        ensures
            (*final(self), step) == old(self).after(outcome@ == RipOutcomeModel::Cancelled),
            old(self).well_formed() ==> final(self).well_formed(),
            old(self).well_formed() && step is Run ==> step->index < old(self).total,
    {
        match self.state {
            BatchState::Completed => BatchStep::Completed,
            BatchState::Aborted => BatchStep::Aborted,
            BatchState::Running => {
                if outcome.is_cancelled() {
                    self.state = BatchState::Aborted;
                    BatchStep::Aborted
                } else if self.started < self.total {
                    let index = self.started;
                    self.started = self.started + 1;
                    BatchStep::Run { index }
                } else {
                    self.state = BatchState::Completed;
                    BatchStep::Completed
                }
            },
        }
    }
}

/// The rips of a batch run strictly one after the other, in their order: as
/// long as no rip is cancelled, the rip at place `n` is started when the `n`
/// rips before it have ended, and not before; when all have ended the batch
/// is complete.
pub proof fn batch_runs_in_order(total: usize, cancelled: Seq<bool>)
    requires
        total >= 1,
        cancelled.len() < total,
        forall|i: int| 0 <= i < cancelled.len() ==> !cancelled[i],
    ensures
        Batch::opened(total).0.after_all(cancelled) == (Batch {
            total,
            started: (cancelled.len() + 1) as usize,
            state: BatchState::Running,
        }),
        Batch::opened(total).0.after_all(cancelled).after(false).1 == if cancelled.len() + 1
            < total {
            BatchStep::Run { index: (cancelled.len() + 1) as usize }
        } else {
            BatchStep::Completed
        },
    decreases cancelled.len(),
{
    if cancelled.len() > 0 {
        let before = cancelled.drop_last();
        assert forall|i: int| 0 <= i < before.len() implies !before[i] by {
            assert(before[i] == cancelled[i]);
        }
        batch_runs_in_order(total, before);
        assert(!cancelled.last());
    }
}

/// A cancelled rip ends its batch: no rip is started after it, whatever is
/// reported later.
pub proof fn cancel_stops_the_batch(batch: Batch, later: Seq<bool>)
    requires
        batch.state == BatchState::Running,
    ensures
        batch.after(true).1 == BatchStep::Aborted,
        batch.after(true).0.after_all(later) == (Batch { state: BatchState::Aborted, ..batch }),
        forall|c: bool| batch.after(true).0.after_all(later).after(c).1 == BatchStep::Aborted,
    decreases later.len(),
{
    if later.len() > 0 {
        cancel_stops_the_batch(batch, later.drop_last());
    }
}

/// The episodes that a batch of `count` rips after `last_episode` has made,
/// as the summary names them: the first and the last with a dash between
/// them, or the one.
pub open spec fn episode_range(last_episode: u8, count: usize) -> Seq<char> {
    if count > 1 {
        decimal_digits((last_episode + 1) as nat) + seq!['-'] + decimal_digits(
            (last_episode + count) as nat,
        )
    } else {
        decimal_digits((last_episode + 1) as nat)
    }
}

/// The episodes that a batch has made, as the summary names them; nothing
/// where their numbers pass 255.
pub fn episode_range_text(last_episode: u8, count: usize) -> (r: Option<String>)
    ensures
        last_episode + 1 > 255 || last_episode + count > 255 ==> r is None,
        last_episode + 1 <= 255 && last_episode + count <= 255 ==> r is Some && r->Some_0@
            == episode_range(last_episode, count),
{
    if last_episode == 255 || count > 255 - last_episode as usize {
        return None;
    }
    let mut out: Vec<char> = Vec::new();
    push_decimal(&mut out, last_episode as u64 + 1);
    if count > 1 {
        out.push('-');
        push_decimal(&mut out, last_episode as u64 + count as u64);
    }
    assert(out@ == episode_range(last_episode, count));
    Some(text_of(&out))
}

/// An entry of a selection menu.
#[derive(Debug, PartialEq, Eq)]
pub struct MenuOption {
    /// What the entry shows.
    pub label: String,
    /// What comes back when the entry is chosen.
    pub value: String,
    /// What the entry shows below its label; empty where it shows nothing.
    pub description: String,
}

/// A `MenuOption` as character sequences.
pub struct MenuOptionModel {
    pub label: Seq<char>,
    pub value: Seq<char>,
    pub description: Seq<char>,
}

impl View for MenuOption {
    type V = MenuOptionModel;

    open spec fn view(&self) -> MenuOptionModel {
        MenuOptionModel { label: self.label@, value: self.value@, description: self.description@ }
    }
}

/// The entries that a vector holds.
pub open spec fn option_views(options: Seq<MenuOption>) -> Seq<MenuOptionModel> {
    Seq::new(options.len(), |i: int| options[i]@)
}

/// The entry that offers the disc in `drive`.
pub open spec fn disc_option(drive: DriveModel) -> MenuOptionModel {
    MenuOptionModel {
        label: "Disc "@ + decimal_digits(drive.drive_number as nat) + ": "@
            + drive.drive_media_title,
        value: "disc_"@ + decimal_digits(drive.drive_number as nat),
        description: Seq::empty(),
    }
}

/// Whether one of the first `n` drives has the number `number`.
pub open spec fn has_number(drives: Seq<DriveModel>, n: int, number: u8) -> bool {
    exists|j: int| 0 <= j < n && j < drives.len() && (#[trigger] drives[j]).drive_number == number
}

/// The entries that offer the discs of `drives`, in their order. A menu
/// holds no value twice: of drives with one number only the first is offered.
pub open spec fn disc_options(drives: Seq<DriveModel>) -> Seq<MenuOptionModel>
    decreases drives.len(),
{
    if drives.len() == 0 {
        Seq::empty()
    } else {
        let before = disc_options(drives.drop_last());
        if has_number(drives, drives.len() - 1, drives.last().drive_number) {
            before
        } else {
            before.push(disc_option(drives.last()))
        }
    }
}

/// The entry of a disc, once chosen, names the disc's drive again.
pub proof fn chosen_disc_is_its_drive(drive: DriveModel)
    ensures
        choice_drive(disc_option(drive).value) == Ok::<nat, IntError>(drive.drive_number as nat),
{
    let digits = decimal_digits(drive.drive_number as nat);
    let prefix = "disc_"@;
    let value = prefix + digits;
    reveal_strlit("disc_");
    digits_are_digits(drive.drive_number as nat);
    assert(value.take(prefix.len() as int) == prefix);
    assert(value.skip(prefix.len() as int) == digits);
    digits_hold_no_text(digits, prefix);
    written_number_reads_back(drive.drive_number as nat, 255);
}

/// Nothing is taken away from digits by taking away a text that does not
/// begin with a digit.
proof fn digits_hold_no_text(digits: Seq<char>, pattern: Seq<char>)
    requires
        all_digits(digits),
        pattern.len() > 0,
        !is_digit(pattern[0]),
    ensures
        without_text(digits, pattern) == digits,
    decreases digits.len(),
{
    if digits.len() > 0 {
        assert(!starts_with(digits, pattern)) by {
            if starts_with(digits, pattern) {
                assert(digits.take(pattern.len() as int)[0] == pattern[0]);
                assert(is_digit(digits[0]));
            }
        }
        assert forall|i: int| 0 <= i < digits.drop_first().len() implies is_digit(
            #[trigger] digits.drop_first()[i],
        ) by {
            assert(digits.drop_first()[i] == digits[i + 1]);
        }
        digits_hold_no_text(digits.drop_first(), pattern);
        assert(seq![digits[0]] + digits.drop_first() == digits);
    }
}

fn disc_option_of(drive: &Drive) -> (r: MenuOption)
    ensures
        r@ == disc_option(drive@),
{
    let mut label: Vec<char> = Vec::new();
    push_text(&mut label, "Disc ");
    push_decimal(&mut label, drive.drive_number as u64);
    push_text(&mut label, ": ");
    push_text(&mut label, drive.drive_media_title.as_str());
    assert(label@ == disc_option(drive@).label);
    let mut value: Vec<char> = Vec::new();
    push_text(&mut value, "disc_");
    push_decimal(&mut value, drive.drive_number as u64);
    assert(value@ == disc_option(drive@).value);
    MenuOption { label: text_of(&label), value: text_of(&value), description: String::new() }
}

/// The entries that offer the discs of `drives`.
pub fn disc_options_of(drives: &Vec<Drive>) -> (r: Vec<MenuOption>)
    ensures
        option_views(r@) == disc_options(drive_views(drives@)),
{
    let ghost all = drive_views(drives@);
    let mut options: Vec<MenuOption> = Vec::new();
    let mut seen: HashSet<u8> = HashSet::new();
    let mut i: usize = 0;
    assert(all.take(0).len() == 0);
    assert(option_views(options@) == Seq::<MenuOptionModel>::empty());
    while i < drives.len()
        invariant
            i <= drives.len(),
            all == drive_views(drives@),
            forall|n: u8| seen@.contains(n) <==> has_number(all, i as int, n),
            option_views(options@) == disc_options(all.take(i as int)),
        decreases drives.len() - i,
    {
        let number = drives[i].drive_number;
        let ghost part = all.take(i + 1);
        assert(part.drop_last() == all.take(i as int));
        assert(part.last() == drives[i as int]@);
        assert(has_number(part, part.len() - 1, number) == has_number(all, i as int, number)) by {
            if has_number(all, i as int, number) {
                let k = choose|k: int|
                    0 <= k < i && k < all.len() && (#[trigger] all[k]).drive_number == number;
                assert(part[k] == all[k]);
            }
            if has_number(part, part.len() - 1, number) {
                let k = choose|k: int|
                    0 <= k < part.len() - 1 && k < part.len() && (#[trigger] part[k]).drive_number
                        == number;
                assert(part[k] == all[k]);
            }
        }
        let fresh = seen.insert(number);
        assert forall|n: u8| seen@.contains(n) <==> has_number(all, i + 1, n) by {
            if n == number {
                assert(all[i as int].drive_number == number);
            } else {
                if has_number(all, i + 1, n) {
                    let k = choose|k: int|
                        0 <= k < i + 1 && k < all.len() && (#[trigger] all[k]).drive_number == n;
                    assert(k < i);
                    assert(has_number(all, i as int, n));
                }
                if has_number(all, i as int, n) {
                    let k = choose|k: int|
                        0 <= k < i && k < all.len() && (#[trigger] all[k]).drive_number == n;
                    assert(all[k].drive_number == n);
                }
            }
        }
        if fresh {
            let ghost before = option_views(options@);
            options.push(disc_option_of(&drives[i]));
            assert(option_views(options@) == before.push(disc_option(drives[i as int]@)));
        }
        i += 1;
    }
    assert(all.take(i as int) == all);
    options
}

/// The entry that offers a title of a disc.
pub open spec fn title_option(title: TitleModel) -> MenuOptionModel {
    MenuOptionModel {
        label: "Title: "@ + decimal_digits(title.title_id as nat) + ", Duration: "@ + title.length,
        value: decimal_digits(title.title_id as nat),
        description: "Chapters: "@ + decimal_digits(title.chapters as nat) + ", Size: "@
            + title.size + ", Resolution: "@ + title.resolution + ", Frame Rate: "@
            + title.frame_rate,
    }
}

/// The entry of a title, once chosen, names the title again, where the
/// title's number is at most 255.
pub proof fn chosen_title_is_itself(title: TitleModel)
    requires
        title.title_id <= 255,
    ensures
        parse_unsigned(title_option(title).value, 255) == Ok::<nat, IntError>(
            title.title_id as nat,
        ),
{
    written_number_reads_back(title.title_id as nat, 255);
}

fn title_option_of(title: &Title) -> (r: MenuOption)
    ensures
        r@ == title_option(title@),
{
    let mut label: Vec<char> = Vec::new();
    push_text(&mut label, "Title: ");
    push_decimal(&mut label, title.title_id as u64);
    push_text(&mut label, ", Duration: ");
    push_text(&mut label, title.length.as_str());
    assert(label@ == title_option(title@).label);
    let mut value: Vec<char> = Vec::new();
    push_decimal(&mut value, title.title_id as u64);
    assert(value@ == title_option(title@).value);
    let mut description: Vec<char> = Vec::new();
    push_text(&mut description, "Chapters: ");
    push_decimal(&mut description, title.chapters as u64);
    push_text(&mut description, ", Size: ");
    push_text(&mut description, title.size.as_str());
    push_text(&mut description, ", Resolution: ");
    push_text(&mut description, title.resolution.as_str());
    push_text(&mut description, ", Frame Rate: ");
    push_text(&mut description, title.frame_rate.as_str());
    assert(description@ == title_option(title@).description);
    MenuOption {
        label: text_of(&label),
        value: text_of(&value),
        description: text_of(&description),
    }
}

/// The entries that offer the titles of a disc: one for each of the first
/// titles, as many as a menu takes.
pub fn title_options_of(titles: &Vec<Title>) -> (r: Vec<MenuOption>)
    ensures
        r.len() == if titles.len() < MENU_LIMIT {
            titles.len()
        } else {
            MENU_LIMIT
        },
        forall|i: int| 0 <= i < r.len() ==> (#[trigger] r[i])@ == title_option(titles[i]@),
{
    let mut options: Vec<MenuOption> = Vec::new();
    let mut i: usize = 0;
    while i < titles.len() && i < MENU_LIMIT
        invariant
            i <= titles.len(),
            i <= MENU_LIMIT,
            options.len() == i,
            forall|k: int| 0 <= k < i ==> (#[trigger] options[k])@ == title_option(titles[k]@),
        decreases titles.len() - i,
    {
        options.push(title_option_of(&titles[i]));
        i += 1;
    }
    options
}

/// Whether a disc has more titles than a menu takes.
pub fn titles_left_out(titles: &Vec<Title>) -> (r: bool)
    ensures
        r == (titles.len() > MENU_LIMIT),
{
    titles.len() > MENU_LIMIT
}

} // verus!
