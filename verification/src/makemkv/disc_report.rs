//! The tool's description of a disc and its titles.
use super::drive_report::missing_field;
use super::errors::{int_error_text, message_text, MakeMkvError, MakeMkvErrorModel, Result};
use super::makemkv_helpers::{clean, cleaned, output_text, utf8_error_text, ProcessOutput};
use crate::decimal::{parse_capped, parse_natural, parse_number, parse_unsigned};
use crate::text::{
    chars_of, has_prefix, lines, lines_of, split, split_on, starts_with,
    text_of, trim, trimmed, views,
};
use vstd::prelude::*;
use vstd::utf8::{decode_utf8, valid_utf8};

verus! {

/// A title of a disc, as the tool describes it.
#[derive(Debug, PartialEq, Eq)]
pub struct Title {
    /// The title, counted from 1.
    pub title_id: u16,
    pub chapters: u16,
    pub length: String,
    pub size: String,
    pub bitrate: String,
    pub resolution: String,
    pub aspect_ratio: String,
    pub frame_rate: String,
}

/// A `Title` with its texts as character sequences.
pub struct TitleModel {
    pub title_id: u16,
    pub chapters: u16,
    pub length: Seq<char>,
    pub size: Seq<char>,
    pub bitrate: Seq<char>,
    pub resolution: Seq<char>,
    pub aspect_ratio: Seq<char>,
    pub frame_rate: Seq<char>,
}

impl View for Title {
    type V = TitleModel;

    open spec fn view(&self) -> TitleModel {
        TitleModel {
            title_id: self.title_id,
            chapters: self.chapters,
            length: self.length@,
            size: self.size@,
            bitrate: self.bitrate@,
            resolution: self.resolution@,
            aspect_ratio: self.aspect_ratio@,
            frame_rate: self.frame_rate@,
        }
    }
}

impl TitleModel {
    /// The title of which nothing is known yet.
    pub open spec fn blank() -> TitleModel {
        TitleModel {
            title_id: 0,
            chapters: 0,
            length: Seq::empty(),
            size: Seq::empty(),
            bitrate: Seq::empty(),
            resolution: Seq::empty(),
            aspect_ratio: Seq::empty(),
            frame_rate: Seq::empty(),
        }
    }
}

impl Default for Title {
    fn default() -> (r: Title)
        ensures
            r@ == TitleModel::blank(),
    {
        Title {
            title_id: 0,
            chapters: 0,
            length: String::new(),
            size: String::new(),
            bitrate: String::new(),
            resolution: String::new(),
            aspect_ratio: String::new(),
            frame_rate: String::new(),
        }
    }
}

impl Clone for Title {
    fn clone(&self) -> (r: Title)
        ensures
            r@ == self@,
    {
        Title {
            title_id: self.title_id,
            chapters: self.chapters,
            length: self.length.clone(),
            size: self.size.clone(),
            bitrate: self.bitrate.clone(),
            resolution: self.resolution.clone(),
            aspect_ratio: self.aspect_ratio.clone(),
            frame_rate: self.frame_rate.clone(),
        }
    }
}

/// The titles that a vector holds.
pub open spec fn title_views(titles: Seq<Title>) -> Seq<TitleModel> {
    Seq::new(titles.len(), |i: int| titles[i]@)
}

/// A disc: its name and its titles, in the order in which the tool lists them.
#[derive(Debug, PartialEq, Eq)]
pub struct DiscInfo {
    pub disc_name: String,
    pub titles: Vec<Title>,
}

/// A `DiscInfo` with its texts as character sequences.
pub struct DiscInfoModel {
    pub disc_name: Seq<char>,
    pub titles: Seq<TitleModel>,
}

impl View for DiscInfo {
    type V = DiscInfoModel;

    open spec fn view(&self) -> DiscInfoModel {
        DiscInfoModel { disc_name: self.disc_name@, titles: title_views(self.titles@) }
    }
}

impl Default for DiscInfo {
    fn default() -> (r: DiscInfo)
        ensures
            r@ == (DiscInfoModel { disc_name: Seq::empty(), titles: Seq::empty() }),
    {
        let r = DiscInfo { disc_name: String::new(), titles: Vec::new() };
        assert(title_views(r.titles@) == Seq::<TitleModel>::empty());
        r
    }
}

/// What is known in the middle of a description: the disc so far, and the
/// title that the lines now are about.
pub struct Reading {
    pub disc: DiscInfoModel,
    pub title: TitleModel,
}

/// The number that a field of the description writes, or the fault.
pub open spec fn number_in(field: Seq<char>, max: nat) -> std::result::Result<
    nat,
    MakeMkvErrorModel,
> {
    match parse_unsigned(field, max) {
        Ok(n) => Ok(n),
        Err(e) => Err(MakeMkvErrorModel::InvalidOutputFormat(int_error_text(e))),
    }
}

/// The number behind the last colon of a field such as `TINFO:3`.
pub open spec fn number_behind_colon(field: Seq<char>) -> std::result::Result<
    nat,
    MakeMkvErrorModel,
> {
    number_in(split(field, ':').last(), 255)
}

/// The code that a field of the description writes: a number of whatever
/// size. A field that writes no number is a fault.
pub open spec fn code_in(field: Seq<char>) -> std::result::Result<nat, MakeMkvErrorModel> {
    match parse_natural(field) {
        Ok(n) => Ok(n),
        Err(e) => Err(MakeMkvErrorModel::InvalidOutputFormat(int_error_text(e))),
    }
}

/// The code behind the last colon of a field such as `CINFO:2`.
pub open spec fn code_behind_colon(field: Seq<char>) -> std::result::Result<
    nat,
    MakeMkvErrorModel,
> {
    code_in(split(field, ':').last())
}

/// The code of a line about the disc that tells the disc's name.
pub const DISC_NAME: u64 = 2;

/// The code of a line about a title that tells the number of its chapters.
pub const CHAPTERS: u64 = 8;

/// The code of a line about a title that tells its length.
pub const LENGTH: u64 = 9;

/// The code of a line about a title that tells its size.
pub const SIZE: u64 = 10;

/// The code of a line about a stream that tells its bit rate.
pub const BITRATE: u64 = 13;

/// The code of a line about a stream that tells its resolution.
pub const RESOLUTION: u64 = 19;

/// The code of a line about a stream that tells its aspect ratio.
pub const ASPECT_RATIO: u64 = 20;

/// The code of a line about a stream that tells its frame rate.
pub const FRAME_RATE: u64 = 21;

/// Whether a line about a title with this code tells something that is kept.
pub open spec fn is_title_code(code: nat) -> bool {
    code == CHAPTERS || code == LENGTH || code == SIZE
}

/// Whether a line about a stream with this code tells something that is kept.
pub open spec fn is_stream_code(code: nat) -> bool {
    code == BITRATE || code == RESOLUTION || code == ASPECT_RATIO || code == FRAME_RATE
}

/// A line about the disc. Its first field ends in the code that says what
/// the line tells: the disc's name, or something that is not kept.
pub open spec fn read_disc_line(state: Reading, info: Seq<Seq<char>>) -> std::result::Result<
    Reading,
    MakeMkvErrorModel,
> {
    match code_behind_colon(info[0]) {
        Err(e) => Err(e),
        Ok(code) => if code == DISC_NAME {
            Ok(
                Reading {
                    disc: DiscInfoModel { disc_name: clean(info.last()), ..state.disc },
                    ..state
                },
            )
        } else {
            Ok(state)
        },
    }
}

/// A line about a title. Its second field is the code that says what the
/// line tells: the number of chapters, the length, the size, or something
/// that is not kept; a line of the last sort changes nothing. Its first
/// field ends in the title, counted from 0. The title that a line names
/// becomes the title that the lines are about, with what was known of the
/// title before it left as it was.
pub open spec fn read_title_line(state: Reading, info: Seq<Seq<char>>) -> std::result::Result<
    Reading,
    MakeMkvErrorModel,
> {
    if info.len() < 2 {
        Err(MakeMkvErrorModel::InvalidOutputFormat(missing_field()))
    } else {
        match code_in(info[1]) {
            Err(e) => Err(e),
            Ok(code) => if !is_title_code(code) {
                Ok(state)
            } else {
                match number_behind_colon(info[0]) {
                    Err(e) => Err(e),
                    Ok(index) => {
                        let title = TitleModel { title_id: (index + 1) as u16, ..state.title };
                        if code == CHAPTERS {
                            match number_in(clean(info.last()), 65535) {
                                Err(e) => Err(e),
                                Ok(n) => Ok(
                                    Reading {
                                        title: TitleModel { chapters: n as u16, ..title },
                                        ..state
                                    },
                                ),
                            }
                        } else if code == LENGTH {
                            Ok(
                                Reading {
                                    title: TitleModel { length: clean(info.last()), ..title },
                                    ..state
                                },
                            )
                        } else {
                            Ok(
                                Reading {
                                    title: TitleModel { size: clean(info.last()), ..title },
                                    ..state
                                },
                            )
                        }
                    },
                }
            },
        }
    }
}

/// A line about a stream of a title. Its third field is the code that says
/// what the line tells: the bit rate, the resolution, the aspect ratio, the
/// frame rate, or something that is not kept. The frame rate is the last
/// thing told of a title: with it the title joins the disc's titles.
pub open spec fn read_stream_line(state: Reading, info: Seq<Seq<char>>) -> std::result::Result<
    Reading,
    MakeMkvErrorModel,
> {
    if info.len() < 3 {
        Err(MakeMkvErrorModel::InvalidOutputFormat(missing_field()))
    } else {
        match code_in(info[2]) {
            Err(e) => Err(e),
            Ok(code) => if code == BITRATE {
                Ok(
                    Reading {
                        title: TitleModel { bitrate: clean(info.last()), ..state.title },
                        ..state
                    },
                )
            } else if code == RESOLUTION {
                Ok(
                    Reading {
                        title: TitleModel { resolution: clean(info.last()), ..state.title },
                        ..state
                    },
                )
            } else if code == ASPECT_RATIO {
                Ok(
                    Reading {
                        title: TitleModel { aspect_ratio: clean(info.last()), ..state.title },
                        ..state
                    },
                )
            } else if code == FRAME_RATE {
                let title = TitleModel { frame_rate: clean(info.last()), ..state.title };
                Ok(
                    Reading {
                        disc: DiscInfoModel {
                            titles: state.disc.titles.push(title),
                            ..state.disc
                        },
                        title,
                    },
                )
            } else {
                Ok(state)
            },
        }
    }
}

/// What is known after one more line. The line counts without the
/// whitespace around it; its fields are separated by commas, and the last
/// field is its value. A line that begins with none of the three kinds
/// tells nothing.
pub open spec fn read_line(state: Reading, raw: Seq<char>) -> std::result::Result<
    Reading,
    MakeMkvErrorModel,
> {
    let line = trim(raw);
    let info = split(line, ',');
    if starts_with(line, "CINFO"@) {
        read_disc_line(state, info)
    } else if starts_with(line, "TINFO"@) {
        read_title_line(state, info)
    } else if starts_with(line, "SINFO"@) {
        read_stream_line(state, info)
    } else {
        Ok(state)
    }
}

/// What is known after the lines `lines`, starting from `state`; the fault
/// of the first line that cannot be read.
pub open spec fn read_lines(state: Reading, lines: Seq<Seq<char>>) -> std::result::Result<
    Reading,
    MakeMkvErrorModel,
>
    decreases lines.len(),
{
    if lines.len() == 0 {
        Ok(state)
    } else {
        match read_lines(state, lines.drop_last()) {
            Err(e) => Err(e),
            Ok(earlier) => read_line(earlier, lines.last()),
        }
    }
}

/// Whether a line tells nothing that is kept: it is of none of the three
/// kinds, or its code is a number that stands for nothing known.
pub open spec fn tells_nothing(raw: Seq<char>) -> bool {
    let line = trim(raw);
    let info = split(line, ',');
    if starts_with(line, "CINFO"@) {
        code_behind_colon(info[0]) matches Ok(code) && code != DISC_NAME
    } else if starts_with(line, "TINFO"@) {
        info.len() >= 2 && (code_in(info[1]) matches Ok(code) && !is_title_code(code))
    } else if starts_with(line, "SINFO"@) {
        info.len() >= 3 && (code_in(info[2]) matches Ok(code) && !is_stream_code(code))
    } else {
        true
    }
}

/// A line that tells nothing changes nothing, however large its code is.
pub proof fn unknown_codes_are_passed_over(state: Reading, raw: Seq<char>)
    requires
        tells_nothing(raw),
    ensures
        read_line(state, raw) == Ok::<Reading, MakeMkvErrorModel>(state),
{
}

/// A description says the same with and without a line that tells nothing.
pub proof fn unknown_lines_can_be_left_out(state: Reading, lines: Seq<Seq<char>>, i: int)
    requires
        0 <= i < lines.len(),
        tells_nothing(lines[i]),
    ensures
        read_lines(state, lines.remove(i)) == read_lines(state, lines),
    decreases lines.len(),
{
    if i == lines.len() - 1 {
        assert(lines.remove(i) == lines.drop_last());
        assert(lines.last() == lines[i]);
        match read_lines(state, lines.drop_last()) {
            Ok(earlier) => {
                unknown_codes_are_passed_over(earlier, lines.last());
            },
            Err(_) => {},
        }
    } else {
        assert(lines.remove(i).drop_last() == lines.drop_last().remove(i));
        assert(lines.remove(i).last() == lines.last());
        assert(lines.drop_last()[i] == lines[i]);
        unknown_lines_can_be_left_out(state, lines.drop_last(), i);
    }
}

/// The disc that the description `text` describes.
pub open spec fn disc_in(text: Seq<char>) -> std::result::Result<DiscInfoModel, MakeMkvErrorModel> {
    let start = Reading {
        disc: DiscInfoModel { disc_name: Seq::empty(), titles: Seq::empty() },
        title: TitleModel::blank(),
    };
    match read_lines(start, lines(text)) {
        Err(e) => Err(e),
        Ok(state) => Ok(state.disc),
    }
}

/// Reads the number that a field writes.
fn read_number(field: &Vec<char>, max: u64) -> (r: Result<u64>)
    ensures
        match number_in(field@, max as nat) {
            Ok(n) => r is Ok && r->Ok_0 == n && n <= max,
            Err(e) => r is Err && r->Err_0@ == e,
        },
{
    match parse_number(field, max) {
        Ok(n) => Ok(n),
        Err(e) => Err(MakeMkvError::from_int_error(e)),
    }
}

/// Reads the number behind the last colon of a field.
fn read_number_behind_colon(field: &Vec<char>) -> (r: Result<u64>)
    ensures
        match number_behind_colon(field@) {
            Ok(n) => r is Ok && r->Ok_0 == n && n <= 255,
            Err(e) => r is Err && r->Err_0@ == e,
        },
{
    let parts = split_on(field, ':');
    assert(views(parts@).last() == parts[parts.len() - 1]@);
    read_number(&parts[parts.len() - 1], 255)
}

/// Reads the code that a field writes; a code too large to stand for
/// anything known is read as none.
fn read_code(field: &Vec<char>) -> (r: Result<Option<u64>>)
    ensures
        match code_in(field@) {
            Ok(n) => r is Ok && r->Ok_0 == (if n <= 255 {
                Some(n as u64)
            } else {
                None
            }),
            Err(e) => r is Err && r->Err_0@ == e,
        },
{
    match parse_capped(field, 255) {
        Ok(code) => Ok(code),
        Err(e) => Err(MakeMkvError::from_int_error(e)),
    }
}

/// Reads the code behind the last colon of a field.
fn read_code_behind_colon(field: &Vec<char>) -> (r: Result<Option<u64>>)
    ensures
        match code_behind_colon(field@) {
            Ok(n) => r is Ok && r->Ok_0 == (if n <= 255 {
                Some(n as u64)
            } else {
                None
            }),
            Err(e) => r is Err && r->Err_0@ == e,
        },
{
    let parts = split_on(field, ':');
    assert(views(parts@).last() == parts[parts.len() - 1]@);
    read_code(&parts[parts.len() - 1])
}

/// Takes one more line of a description into `disc` and `title`.
fn take_line(disc: &mut DiscInfo, title: &mut Title, raw: &Vec<char>) -> (r: Result<()>)
    ensures
        match read_line((Reading { disc: old(disc)@, title: old(title)@ }), raw@) {
            Ok(next) => r is Ok && final(disc)@ == next.disc && final(title)@ == next.title,
            Err(e) => r is Err && r->Err_0@ == e,
        },
{
    let line = trimmed(raw);
    let info = split_on(&line, ',');
    let ghost fields = split(line@, ',');
    assert(fields.len() == info.len());
    assert(fields[0] == info[0]@);
    assert(fields.last() == info[info.len() - 1]@);
    if has_prefix(&line, &chars_of("CINFO")) {
        let code = match read_code_behind_colon(&info[0])? {
            Some(code) => code,
            None => return Ok(()),
        };
        if code == DISC_NAME {
            disc.disc_name = text_of(&cleaned(&info[info.len() - 1]));
        }
        Ok(())
    } else if has_prefix(&line, &chars_of("TINFO")) {
        if info.len() < 2 {
            return Err(MakeMkvError::InvalidOutputFormat("missing field".to_owned()));
        }
        assert(fields[1] == info[1]@);
        let code = match read_code(&info[1])? {
            Some(code) => code,
            None => return Ok(()),
        };
        if !(code == CHAPTERS || code == LENGTH || code == SIZE) {
            return Ok(());
        }
        let index = read_number_behind_colon(&info[0])?;
        if code == CHAPTERS {
            let chapters = read_number(&cleaned(&info[info.len() - 1]), 65535)?;
            title.chapters = chapters as u16;
        } else if code == LENGTH {
            title.length = text_of(&cleaned(&info[info.len() - 1]));
        } else {
            title.size = text_of(&cleaned(&info[info.len() - 1]));
        }
        title.title_id = index as u16 + 1;
        Ok(())
    } else if has_prefix(&line, &chars_of("SINFO")) {
        if info.len() < 3 {
            return Err(MakeMkvError::InvalidOutputFormat("missing field".to_owned()));
        }
        assert(fields[2] == info[2]@);
        let code = match read_code(&info[2])? {
            Some(code) => code,
            None => return Ok(()),
        };
        if code == BITRATE {
            title.bitrate = text_of(&cleaned(&info[info.len() - 1]));
        } else if code == RESOLUTION {
            title.resolution = text_of(&cleaned(&info[info.len() - 1]));
        } else if code == ASPECT_RATIO {
            title.aspect_ratio = text_of(&cleaned(&info[info.len() - 1]));
        } else if code == FRAME_RATE {
            title.frame_rate = text_of(&cleaned(&info[info.len() - 1]));
            let ghost before = title_views(disc.titles@);
            disc.titles.push(title.clone());
            assert(title_views(disc.titles@) == before.push(title@));
        }
        Ok(())
    } else {
        Ok(())
    }
}

/// Once a line cannot be read, the lines after it do not matter.
proof fn reading_fault_stays(state: Reading, lines: Seq<Seq<char>>, n: int)
    requires
        0 <= n <= lines.len(),
        read_lines(state, lines.take(n)) is Err,
    ensures
        read_lines(state, lines) == read_lines(state, lines.take(n)),
    decreases lines.len() - n,
{
    if n < lines.len() {
        assert(lines.take(n + 1).drop_last() == lines.take(n));
        reading_fault_stays(state, lines, n + 1);
    } else {
        assert(lines.take(n) == lines);
    }
}

/// The disc that the tool's description `text` describes.
pub fn read_disc_info(text: &str) -> (r: Result<DiscInfo>)
    ensures
        match disc_in(text@) {
            Ok(disc) => r is Ok && r->Ok_0@ == disc,
            Err(e) => r is Err && r->Err_0@ == e,
        },
{
    let all = lines_of(&chars_of(text));
    let mut disc = DiscInfo::default();
    let mut title = Title::default();
    let ghost start = Reading { disc: disc@, title: title@ };
    let ghost model = lines(text@);
    let mut i: usize = 0;
    assert(model.take(0).len() == 0);
    while i < all.len()
        invariant
            i <= all.len(),
            views(all@) == model,
            model == lines(text@),
            start == (Reading {
                disc: DiscInfoModel { disc_name: Seq::empty(), titles: Seq::empty() },
                title: TitleModel::blank(),
            }),
            read_lines(start, model.take(i as int)) == Ok::<Reading, MakeMkvErrorModel>(
                Reading { disc: disc@, title: title@ },
            ),
        decreases all.len() - i,
    {
        assert(all[i as int]@ == model[i as int]);
        assert(model.take(i + 1).drop_last() == model.take(i as int));
        assert(model.take(i + 1).last() == model[i as int]);
        match take_line(&mut disc, &mut title, &all[i]) {
            Ok(()) => {},
            Err(e) => {
                proof {
                    reading_fault_stays(start, model, i as int + 1);
                }
                return Err(e);
            },
        }
        i += 1;
    }
    assert(model.take(i as int) == model);
    Ok(disc)
}

/// What `parse_disc_info` makes of the finished process `output`.
pub open spec fn disc_of_output(output: ProcessOutput) -> std::result::Result<
    DiscInfoModel,
    MakeMkvErrorModel,
> {
    if valid_utf8(output.stdout@) {
        disc_in(decode_utf8(output.stdout@))
    } else {
        Err(MakeMkvErrorModel::InvalidOutputFormat(utf8_error_text(output.stdout@)))
    }
}

/// The disc that the tool has described in `output`.
pub fn parse_disc_info(output: &ProcessOutput) -> (r: Result<DiscInfo>)
    ensures
        match disc_of_output(*output) {
            Ok(disc) => r is Ok && r->Ok_0@ == disc,
            Err(e) => r is Err && r->Err_0@ == e,
        },
{
    match output_text(output) {
        Ok(text) => read_disc_info(text.as_str()),
        Err(e) => Err(e),
    }
}

/// What `get_title_info` makes of the tool's answer `ran`.
pub open spec fn title_info(ran: std::result::Result<ProcessOutput, String>) -> std::result::Result<
    DiscInfoModel,
    MakeMkvErrorModel,
> {
    match ran {
        Err(why) => Err(MakeMkvErrorModel::CommandExecutionError(why@)),
        Ok(output) => match disc_of_output(output) {
            Ok(disc) => Ok(disc),
            Err(e) => Err(MakeMkvErrorModel::ParseError(message_text(e))),
        },
    }
}

/// The disc in a drive, from what became of the command that describes it:
/// `ran` holds the finished process, or why the tool could not be launched.
/// A description that cannot be read is a parse error that carries the
/// fault's message.
pub fn get_title_info(ran: std::result::Result<ProcessOutput, String>) -> (r: Result<DiscInfo>)
    ensures
        match title_info(ran) {
            Ok(disc) => r is Ok && r->Ok_0@ == disc,
            Err(e) => r is Err && r->Err_0@ == e,
        },
{
    match ran {
        Err(why) => Err(MakeMkvError::CommandExecutionError(why)),
        Ok(output) => match parse_disc_info(&output) {
            Ok(disc) => Ok(disc),
            Err(e) => Err(MakeMkvError::ParseError(e.message())),
        },
    }
}

} // verus!
