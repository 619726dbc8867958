//! Commands for the ripping tool and the reading of what it prints.
use super::errors::{MakeMkvError, MakeMkvErrorModel, Result};
use super::layout::file_name;
use super::makemkv_core::{Rip, RipModel};
use crate::bytes::{found, has_more_lines_than, holds, line_count};
use crate::decimal::{
    decimal_digits, parse_u8, parse_unsigned, to_decimal, written_number_reads_back,
};
use crate::text::{
    chars_of, copy_range, ends_with, has_prefix, has_suffix, push_chars, push_text,
    remove_char, starts_with, text_of, texts, trim, trim_bounds, without_char,
};
use vstd::prelude::*;
use vstd::utf8::{decode_utf8, encode_utf8, valid_utf8};

verus! {

/// A program to run, with its arguments.
#[derive(Debug, PartialEq, Eq)]
pub struct Command {
    pub command: String,
    pub args: Vec<String>,
}

/// A `Command` as character sequences.
pub struct CommandModel {
    pub command: Seq<char>,
    pub args: Seq<Seq<char>>,
}

impl View for Command {
    type V = CommandModel;

    open spec fn view(&self) -> CommandModel {
        CommandModel { command: self.command@, args: texts(self.args@) }
    }
}

impl Command {
    /// The command that runs the program `command` with the arguments `args`.
    pub fn new(command: &str, args: Vec<String>) -> (r: Command)
        ensures
            r@ == (CommandModel { command: command@, args: texts(args@) }),
    {
        Command { command: command.to_owned(), args }
    }
}

/// The name of the ripping tool's program.
pub open spec fn tool() -> Seq<char> {
    "makemkvcon"@
}

/// The argument that names the drive `drive_number` to the tool, which
/// counts drives from 0.
pub open spec fn device_arg(drive_number: u8) -> Seq<char> {
    "dev:/dev/sr"@ + decimal_digits((drive_number - 1) as nat)
}

/// The command that rips the title of `rip` into the directory `staging`.
/// The tool counts titles from 0, and passes over titles of under ten minutes.
pub open spec fn rip_command(rip: RipModel, staging: Seq<char>) -> CommandModel {
    CommandModel {
        command: tool(),
        args: seq![
            "mkv"@,
            device_arg(rip.drive_number),
            decimal_digits((rip.title_id - 1) as nat),
            "--minlength=600"@,
            staging,
        ],
    }
}

/// The command that describes the disc in the drive `drive_number`.
pub open spec fn title_info_command(drive_number: u8) -> CommandModel {
    CommandModel {
        command: tool(),
        args: seq!["-r"@, "info"@, device_arg(drive_number), "--minlength=600"@],
    }
}

/// The command that lists the drives.
pub open spec fn drive_scan_command() -> CommandModel {
    CommandModel { command: tool(), args: seq!["-r"@, "--cache=1"@, "info"@, "disc:9999"@] }
}

/// The bare call that shows whether the tool is installed.
pub open spec fn probe_command() -> CommandModel {
    CommandModel { command: tool(), args: Seq::<Seq<char>>::empty() }
}

fn device_arg_of(drive_number: u8) -> (r: String)
    requires
        drive_number >= 1,
    ensures
        r@ == device_arg(drive_number),
{
    let mut out: Vec<char> = Vec::new();
    push_text(&mut out, "dev:/dev/sr");
    let digits = to_decimal((drive_number - 1) as u64);
    push_chars(&mut out, &digits);
    text_of(&out)
}

/// The command that rips the title of `rip` into the directory `staging`.
pub fn rip_command_for(rip: &Rip, staging: &str) -> (r: Command)
    requires
        rip@.well_formed(),
    ensures
        r@ == rip_command(rip@, staging@),
{
    let mut args: Vec<String> = Vec::new();
    args.push("mkv".to_owned());
    args.push(device_arg_of(rip.drive_number));
    args.push(text_of(&to_decimal((rip.title_id - 1) as u64)));
    args.push("--minlength=600".to_owned());
    args.push(staging.to_owned());
    let r = Command::new("makemkvcon", args);
    assert(r@.args =~= rip_command(rip@, staging@).args);
    r
}

/// The command that describes the disc in the drive `drive_number`.
pub fn title_info_command_for(drive_number: u8) -> (r: Command)
    requires
        drive_number >= 1,
    ensures
        r@ == title_info_command(drive_number),
{
    let mut args: Vec<String> = Vec::new();
    args.push("-r".to_owned());
    args.push("info".to_owned());
    args.push(device_arg_of(drive_number));
    args.push("--minlength=600".to_owned());
    let r = Command::new("makemkvcon", args);
    assert(r@.args =~= title_info_command(drive_number).args);
    r
}

/// The command that lists the drives.
pub fn drive_scan_command_for() -> (r: Command)
    ensures
        r@ == drive_scan_command(),
{
    let mut args: Vec<String> = Vec::new();
    args.push("-r".to_owned());
    args.push("--cache=1".to_owned());
    args.push("info".to_owned());
    args.push("disc:9999".to_owned());
    let r = Command::new("makemkvcon", args);
    assert(r@.args =~= drive_scan_command().args);
    r
}

/// The bare call that shows whether the tool is installed.
pub fn probe_command_for() -> (r: Command)
    ensures
        r@ == probe_command(),
{
    let r = Command::new("makemkvcon", Vec::new());
    assert(r@.args =~= probe_command().args);
    r
}

/// What a finished process left behind.
#[derive(Debug, PartialEq, Eq)]
pub struct ProcessOutput {
    pub stdout: Vec<u8>,
    pub stderr: Vec<u8>,
    /// The exit code; none where the process was ended by a signal.
    pub exit_code: Option<i32>,
}

impl ProcessOutput {
    /// Whether the process reported success.
    pub open spec fn success(&self) -> bool {
        self.exit_code == Some(0i32)
    }
}

/// The exit code with which the tool reports that it could not open the disc.
pub const OPEN_DISC_FAILED: i32 = 11;

/// The most lines that the tool prints when a drive merely was not ready.
pub const DRIVE_NOT_READY_LINES: usize = 3;

/// The tool's words for a title that it could not save, as it prints them.
pub open spec fn failed_save_marker() -> Seq<u8> {
    encode_utf8("Failed to save"@)
}

/// What is wrong with a run of the tool that printed `printed` and ended
/// with `exit_code`, or nothing where the run is good. The status decides
/// first. A run that reports success is good unless it printed the tool's
/// words for a failed save: then the disc is unreadable. A run that ends
/// with the code for a disc that could not be opened is a drive that was not
/// ready where it printed few lines. Every other run failed for a reason
/// that is not known.
pub open spec fn verdict(printed: Seq<u8>, exit_code: Option<i32>) -> Option<MakeMkvErrorModel> {
    if exit_code == Some(0i32) {
        if holds(printed, failed_save_marker()) {
            Some(MakeMkvErrorModel::FailedToSaveDisc)
        } else {
            None
        }
    } else if exit_code == Some(OPEN_DISC_FAILED) && line_count(printed) <= DRIVE_NOT_READY_LINES {
        Some(MakeMkvErrorModel::DriveError)
    } else {
        Some(MakeMkvErrorModel::UnknownError)
    }
}

/// A run that reports success but prints the tool's words for a failed save
/// is an unreadable disc, never a good run.
pub proof fn failed_save_is_never_success(printed: Seq<u8>)
    requires
        holds(printed, failed_save_marker()),
    ensures
        verdict(printed, Some(0i32)) == Some(MakeMkvErrorModel::FailedToSaveDisc),
{
}

/// A run that ends with the code for a disc that could not be opened is a
/// drive that was not ready where it printed no more lines than such a
/// drive gives rise to, and an unknown failure where it printed more.
pub proof fn open_failed_goes_by_the_lines(printed: Seq<u8>)
    ensures
        line_count(printed) <= DRIVE_NOT_READY_LINES ==> verdict(printed, Some(OPEN_DISC_FAILED))
            == Some(MakeMkvErrorModel::DriveError),
        line_count(printed) > DRIVE_NOT_READY_LINES ==> verdict(printed, Some(OPEN_DISC_FAILED))
            == Some(MakeMkvErrorModel::UnknownError),
{
}

/// A run is good exactly where it reports success and did not print the
/// words for a failed save; every other run is an unreadable disc, a drive
/// that was not ready, or an unknown failure, and nothing else.
pub proof fn verdicts_are_three(printed: Seq<u8>, exit_code: Option<i32>)
    ensures
        verdict(printed, exit_code) is None <==> exit_code == Some(0i32) && !holds(
            printed,
            failed_save_marker(),
        ),
        verdict(printed, exit_code) is Some ==> verdict(printed, exit_code)->Some_0
            == MakeMkvErrorModel::FailedToSaveDisc || verdict(printed, exit_code)->Some_0
            == MakeMkvErrorModel::DriveError || verdict(printed, exit_code)->Some_0
            == MakeMkvErrorModel::UnknownError,
        exit_code != Some(0i32) && exit_code != Some(OPEN_DISC_FAILED) ==> verdict(
            printed,
            exit_code,
        ) == Some(MakeMkvErrorModel::UnknownError),
{
}

/// Judges a run of the tool that printed `printed` and ended with
/// `exit_code`.
pub fn classify_bytes(printed: &[u8], exit_code: Option<i32>) -> (r: Result<()>)
    ensures
        match verdict(printed@, exit_code) {
            None => r is Ok,
            Some(e) => r is Err && r->Err_0@ == e,
        },
{
    match exit_code {
        Some(0) => {
            if found(printed, "Failed to save".as_bytes()) {
                Err(MakeMkvError::FailedToSaveDisc)
            } else {
                Ok(())
            }
        },
        Some(code) => {
            if code == OPEN_DISC_FAILED && !has_more_lines_than(printed, DRIVE_NOT_READY_LINES) {
                Err(MakeMkvError::DriveError)
            } else {
                Err(MakeMkvError::UnknownError)
            }
        },
        None => Err(MakeMkvError::UnknownError),
    }
}

/// Judges a run of the tool that printed the text `text` and ended with
/// `exit_code`.
pub fn classify_output(text: &str, exit_code: Option<i32>) -> (r: Result<()>)
    ensures
        match verdict(encode_utf8(text@), exit_code) {
            None => r is Ok,
            Some(e) => r is Err && r->Err_0@ == e,
        },
{
    classify_bytes(text.as_bytes(), exit_code)
}

/// The text with which the standard library describes why `bytes` are not
/// UTF-8.
pub uninterp spec fn utf8_error_text(bytes: Seq<u8>) -> Seq<char>;

/// `String::from_utf8`: the text that `bytes` encode where they are valid
/// UTF-8, else the description of the fault that the returned error displays.
#[verifier::external_body]
fn decode_text(bytes: &Vec<u8>) -> (r: std::result::Result<String, String>)
    ensures
        valid_utf8(bytes@) ==> r is Ok && r->Ok_0@ == decode_utf8(bytes@),
        !valid_utf8(bytes@) ==> r is Err && r->Err_0@ == utf8_error_text(bytes@),
{
    match String::from_utf8(bytes.clone()) {
        Ok(text) => Ok(text),
        Err(e) => Err(e.to_string()),
    }
}

/// The text that a process printed, or the error that stands for output
/// which is not text.
pub fn output_text(output: &ProcessOutput) -> (r: Result<String>)
    ensures
        valid_utf8(output.stdout@) ==> r is Ok && r->Ok_0@ == decode_utf8(output.stdout@),
        !valid_utf8(output.stdout@) ==> r is Err && r->Err_0@
            == MakeMkvErrorModel::InvalidOutputFormat(utf8_error_text(output.stdout@)),
{
    match decode_text(&output.stdout) {
        Ok(text) => Ok(text),
        Err(why) => Err(MakeMkvError::InvalidOutputFormat(why)),
    }
}

/// What is wrong with the finished run `output` of the tool, or nothing.
pub open spec fn output_verdict(output: ProcessOutput) -> Option<MakeMkvErrorModel> {
    verdict(output.stdout@, output.exit_code)
}

/// Judges a finished run of the tool by its status and by what it printed,
/// which need not be text. Success with the tool's words for a failed save
/// is an unreadable disc; the exit code for a disc that could not be opened
/// is a drive that was not ready where the tool printed little, and an
/// unknown failure where it printed more; every other failure is unknown.
pub fn check_makemkv_output(output: &ProcessOutput) -> (r: Result<()>)
    ensures
        match output_verdict(*output) {
            None => r is Ok,
            Some(e) => r is Err && r->Err_0@ == e,
        },
{
    classify_bytes(output.stdout.as_slice(), output.exit_code)
}

/// Whether the answer to a bare call of the tool shows that it is installed:
/// the tool then ends with exit code 1. `probe` is none where the tool could
/// not be launched.
pub fn makemkv_exists(probe: Option<&ProcessOutput>) -> (r: bool)
    ensures
        r == (probe matches Some(output) && output.exit_code == Some(1i32)),
{
    match probe {
        Some(output) => match output.exit_code {
            Some(code) => code == 1,
            None => false,
        },
        None => false,
    }
}

/// A value of the tool's report as it is meant: without the whitespace
/// around it, and without its quotation marks.
pub open spec fn clean(s: Seq<char>) -> Seq<char> {
    without_char(trim(s), '"')
}

/// A value of the tool's report as it is meant.
pub fn cleaned(v: &Vec<char>) -> (r: Vec<char>)
    ensures
        r@ == clean(v@),
{
    let (a, b) = trim_bounds(v);
    remove_char(v, a, b, '"')
}

/// A value of the tool's report as it is meant.
pub fn clean_str(s: &str) -> (r: String)
    ensures
        r@ == clean(s@),
{
    text_of(&cleaned(&chars_of(s)))
}

/// The last field of a line of the tool's report, as it is meant.
pub fn clean_info(info: Vec<&str>) -> (r: String)
    requires
        info.len() > 0,
    ensures
        r@ == clean(info[info.len() - 1]@),
{
    clean_str(info[info.len() - 1])
}

/// The number of the episode that a file of this name holds: the name is
/// `Episode `, a number of at most 255, and the media suffix. Every other
/// name holds no episode.
pub open spec fn episode_of(name: Seq<char>) -> Option<u8> {
    let prefix = "Episode "@;
    let suffix = ".mkv"@;
    if starts_with(name, prefix) && ends_with(name, suffix) && prefix.len() + suffix.len()
        <= name.len() {
        match parse_unsigned(name.subrange(prefix.len() as int, name.len() - suffix.len()), 255) {
            Ok(n) => Some(n as u8),
            Err(_) => None,
        }
    } else {
        None
    }
}

/// The number of the episode that a file of this name holds.
pub fn episode_in_name(name: &str) -> (r: Option<u8>)
    ensures
        r == episode_of(name@),
{
    let chars = chars_of(name);
    let prefix = chars_of("Episode ");
    let suffix = chars_of(".mkv");
    if has_prefix(&chars, &prefix) && has_suffix(&chars, &suffix) && prefix.len() <= chars.len()
        - suffix.len() {
        let number = copy_range(&chars, prefix.len(), chars.len() - suffix.len());
        match parse_u8(&number) {
            Ok(n) => Some(n),
            Err(_) => None,
        }
    } else {
        None
    }
}

/// The greatest episode among the files of these names; 0 where no name
/// holds an episode.
pub open spec fn last_episode(names: Seq<Seq<char>>) -> u8
    decreases names.len(),
{
    if names.len() == 0 {
        0
    } else {
        let before = last_episode(names.drop_last());
        match episode_of(names.last()) {
            Some(n) => if n > before {
                n
            } else {
                before
            },
            None => before,
        }
    }
}

/// `last_episode` is the greatest episode among the names: it is at least
/// every episode that a name holds, and it is 0 or the episode of a name.
pub proof fn last_episode_is_greatest(names: Seq<Seq<char>>)
    ensures
        forall|i: int|
            0 <= i < names.len() && episode_of(#[trigger] names[i]) is Some ==> episode_of(
                names[i],
            )->Some_0 <= last_episode(names),
        last_episode(names) == 0 || exists|i: int|
            0 <= i < names.len() && episode_of(#[trigger] names[i]) == Some(last_episode(names)),
    decreases names.len(),
{
    if names.len() > 0 {
        let before = names.drop_last();
        last_episode_is_greatest(before);
        assert forall|i: int|
            0 <= i < names.len() && episode_of(#[trigger] names[i]) is Some implies episode_of(
            names[i],
        )->Some_0 <= last_episode(names) by {
            if i < before.len() {
                assert(before[i] == names[i]);
            }
        }
        if last_episode(names) != 0 {
            if episode_of(names.last()) == Some(last_episode(names)) {
                assert(names[names.len() - 1] == names.last());
            } else {
                let i = choose|i: int|
                    0 <= i < before.len() && episode_of(#[trigger] before[i]) == Some(
                        last_episode(before),
                    );
                assert(before[i] == names[i]);
            }
        }
    }
}

/// The file that an episode is filed as is read back as that episode.
pub proof fn filed_episode_is_found(rip: RipModel)
    requires
        rip.rip_type is Show,
    ensures
        episode_of(file_name(rip)) == Some(rip.rip_type->episode),
{
    let number = rip.rip_type->episode;
    let p = "Episode "@;
    let d = decimal_digits(number as nat);
    let x = ".mkv"@;
    let name = p + d + x;
    assert(file_name(rip) == name);
    assert(name.take(p.len() as int) == p);
    assert(name.skip(name.len() - x.len()) == x);
    assert(name.subrange(p.len() as int, name.len() - x.len()) == d);
    written_number_reads_back(number as nat, 255);
}

/// Episodes numbered onward from the last episode of a season collide with
/// no file that the season has.
pub proof fn new_episodes_are_free(names: Seq<Seq<char>>, ahead: nat)
    requires
        ahead >= 1,
        last_episode(names) + ahead <= 255,
    ensures
        forall|i: int|
            0 <= i < names.len() ==> episode_of(#[trigger] names[i]) != Some(
                (last_episode(names) + ahead) as u8,
            ),
{
    last_episode_is_greatest(names);
}

/// The last episode that a season already has, after which new episodes are
/// numbered. `entries` are the names of the files in the season's directory,
/// or nothing where the directory does not exist: then the answer is 0.
pub fn get_last_episode_in_dir(entries: Option<&Vec<String>>) -> (r: u8)
    ensures
        r == (match entries {
            Some(names) => last_episode(texts(names@)),
            None => 0u8,
        }),
{
    match entries {
        None => 0,
        Some(names) => {
            let mut last: u8 = 0;
            let mut i: usize = 0;
            let ghost all = texts(names@);
            assert(all.take(0).len() == 0);
            while i < names.len()
                invariant
                    i <= names.len(),
                    all == texts(names@),
                    last == last_episode(all.take(i as int)),
                decreases names.len() - i,
            {
                assert(all.take(i + 1).drop_last() == all.take(i as int));
                assert(all.take(i + 1).last() == names[i as int]@);
                match episode_in_name(names[i].as_str()) {
                    Some(n) => {
                        if n > last {
                            last = n;
                        }
                    },
                    None => {},
                }
                i += 1;
            }
            assert(all.take(i as int) == all);
            last
        },
    }
}

} // verus!
