//! The tool's list of drives.
use super::errors::{int_error_text, MakeMkvError, MakeMkvErrorModel, Result};
use super::makemkv_helpers::{
    clean, cleaned, device_arg, output_text, utf8_error_text, ProcessOutput,
};
use crate::decimal::{
    decimal_digits, digits_are_digits, is_digit, parse_number, parse_unsigned,
    written_number_reads_back, IntError,
};
use crate::text::{
    chars_of, contains, copy_range, has_prefix, has_text, lines, lines_of, replace_char,
    replaced_char, split, split_on, starts_with, text_of, views,
};
use vstd::prelude::*;
use vstd::utf8::{decode_utf8, valid_utf8};

verus! {

/// A drive, and the disc that is in it.
#[derive(Debug, PartialEq, Eq)]
pub struct Drive {
    /// The drive, counted from 1.
    pub drive_number: u8,
    pub drive_model: String,
    pub drive_media_title: String,
}

/// A `Drive` with its texts as character sequences.
pub struct DriveModel {
    pub drive_number: u8,
    pub drive_model: Seq<char>,
    pub drive_media_title: Seq<char>,
}

impl View for Drive {
    type V = DriveModel;

    open spec fn view(&self) -> DriveModel {
        DriveModel {
            drive_number: self.drive_number,
            drive_model: self.drive_model@,
            drive_media_title: self.drive_media_title@,
        }
    }
}

/// The drives that a vector holds.
pub open spec fn drive_views(drives: Seq<Drive>) -> Seq<DriveModel> {
    Seq::new(drives.len(), |i: int| drives[i]@)
}

/// What the list says of a line that lacks a field.
pub open spec fn missing_field() -> Seq<char> {
    "missing field"@
}

/// Whether a line of the list describes a drive that exists.
pub open spec fn is_drive_line(line: Seq<char>) -> bool {
    starts_with(line, "DRV:"@) && contains(line, "/dev/sr"@)
}

/// The title of the disc in a drive, from its field in the list: the disc's
/// label with spaces for underscores, or words that say that no disc is in.
pub open spec fn media_title(field: Seq<char>) -> Seq<char> {
    if clean(field).len() == 0 {
        "No disc inserted"@
    } else {
        replace_char(clean(field), '_', ' ')
    }
}

/// The beginning of the name of a drive's device; the number by which the
/// tool counts the drive, from 0, stands behind it.
pub open spec fn device_prefix() -> Seq<char> {
    "/dev/sr"@
}

/// The greatest number by which the tool can count a drive whose own number,
/// one greater, is still a drive number.
pub const LAST_DEVICE: u64 = 254;

/// The number by which the tool counts the drive of the device `device`: the
/// whole decimal number behind the beginning of the name. A device of
/// another name, a name with no number or with anything but digits behind
/// its beginning, and a number above the last are faults.
pub open spec fn device_index(device: Seq<char>) -> std::result::Result<nat, MakeMkvErrorModel> {
    let digits = device.skip(device_prefix().len() as int);
    if !starts_with(device, device_prefix()) {
        Err(MakeMkvErrorModel::InvalidOutputFormat(missing_field()))
    } else if digits.len() > 0 && digits[0] == '+' {
        Err(MakeMkvErrorModel::InvalidOutputFormat(int_error_text(IntError::InvalidDigit)))
    } else {
        match parse_unsigned(digits, LAST_DEVICE as nat) {
            Ok(n) => Ok(n),
            Err(e) => Err(MakeMkvErrorModel::InvalidOutputFormat(int_error_text(e))),
        }
    }
}

/// The drive that a line of the list describes. Its fields are separated by
/// commas; the fifth is the drive's model, the sixth the disc's label, the
/// seventh the device. The drive's number is one more than the number by
/// which the tool counts it.
pub open spec fn drive_of(line: Seq<char>) -> std::result::Result<DriveModel, MakeMkvErrorModel> {
    let info = split(line, ',');
    if info.len() < 7 {
        Err(MakeMkvErrorModel::InvalidOutputFormat(missing_field()))
    } else {
        match device_index(clean(info[6])) {
            Err(e) => Err(e),
            Ok(index) => Ok(
                DriveModel {
                    drive_number: (index + 1) as u8,
                    drive_model: clean(info[4]),
                    drive_media_title: media_title(info[5]),
                },
            ),
        }
    }
}

/// The device of a drive is read as the drive that the tool is later told
/// to use: the device whose name ends in `index` belongs to the drive
/// `index + 1`, and that drive is named to the tool by the same device.
pub proof fn listed_device_is_named_again(index: nat)
    requires
        index <= LAST_DEVICE,
    ensures
        device_index(device_prefix() + decimal_digits(index)) == Ok::<nat, MakeMkvErrorModel>(
            index,
        ),
        device_arg((index + 1) as u8) == "dev:"@ + (device_prefix() + decimal_digits(index)),
{
    let digits = decimal_digits(index);
    let device = device_prefix() + digits;
    digits_are_digits(index);
    written_number_reads_back(index, LAST_DEVICE as nat);
    assert(device.take(device_prefix().len() as int) == device_prefix());
    assert(device.skip(device_prefix().len() as int) == digits);
    assert(is_digit(digits[0]));
    reveal_strlit("dev:/dev/sr");
    reveal_strlit("dev:");
    reveal_strlit("/dev/sr");
    assert("dev:/dev/sr"@ == "dev:"@ + "/dev/sr"@);
    assert("dev:/dev/sr"@ + digits == "dev:"@ + ("/dev/sr"@ + digits));
}

/// The drives that the lines describe, in the order of the lines, or the
/// fault of the first line that describes a drive badly.
pub open spec fn drives_in(lines: Seq<Seq<char>>) -> std::result::Result<
    Seq<DriveModel>,
    MakeMkvErrorModel,
>
    decreases lines.len(),
{
    if lines.len() == 0 {
        Ok(Seq::empty())
    } else {
        match drives_in(lines.drop_last()) {
            Err(e) => Err(e),
            Ok(found) => if is_drive_line(lines.last()) {
                match drive_of(lines.last()) {
                    Ok(drive) => Ok(found.push(drive)),
                    Err(e) => Err(e),
                }
            } else {
                Ok(found)
            },
        }
    }
}

/// How many of the lines describe a drive that exists.
pub open spec fn drive_lines(lines: Seq<Seq<char>>) -> nat
    decreases lines.len(),
{
    if lines.len() == 0 {
        0
    } else {
        drive_lines(lines.drop_last()) + if is_drive_line(lines.last()) {
            1nat
        } else {
            0nat
        }
    }
}

/// Where every line that describes a drive describes it well, each such
/// line gives one drive, and no other line gives any.
pub proof fn each_drive_line_gives_a_drive(lines: Seq<Seq<char>>)
    requires
        drives_in(lines) is Ok,
    ensures
        drives_in(lines)->Ok_0.len() == drive_lines(lines),
    decreases lines.len(),
{
    if lines.len() > 0 {
        each_drive_line_gives_a_drive(lines.drop_last());
    }
}

/// The drives of `drives` whose number is `n`, in their order.
pub open spec fn with_number(drives: Seq<DriveModel>, n: u8) -> Seq<DriveModel>
    decreases drives.len(),
{
    if drives.len() == 0 {
        drives
    } else if drives.last().drive_number == n {
        with_number(drives.drop_last(), n).push(drives.last())
    } else {
        with_number(drives.drop_last(), n)
    }
}

/// Whether no drive stands before one with a smaller number.
pub open spec fn in_ascending_order(drives: Seq<DriveModel>) -> bool {
    forall|i: int, j: int|
        0 <= i < j < drives.len() ==> drives[i].drive_number <= drives[j].drive_number
}

/// Whether `sorted` holds the drives of `drives` ordered by their numbers,
/// drives of one number in the order that they have in `drives`.
pub open spec fn is_sorted_form_of(sorted: Seq<DriveModel>, drives: Seq<DriveModel>) -> bool {
    in_ascending_order(sorted) && forall|n: u8|
        #[trigger] with_number(sorted, n) == with_number(drives, n)
}

proof fn with_number_of_joined(a: Seq<DriveModel>, b: Seq<DriveModel>, n: u8)
    ensures
        with_number(a + b, n) == with_number(a, n) + with_number(b, n),
    decreases b.len(),
{
    if b.len() == 0 {
        assert(a + b == a);
    } else {
        assert((a + b).drop_last() == a + b.drop_last());
        assert((a + b).last() == b.last());
        with_number_of_joined(a, b.drop_last(), n);
    }
}

proof fn with_number_of_others(a: Seq<DriveModel>, n: u8)
    requires
        forall|i: int| 0 <= i < a.len() ==> a[i].drive_number != n,
    ensures
        with_number(a, n).len() == 0,
    decreases a.len(),
{
    if a.len() > 0 {
        assert forall|i: int| 0 <= i < a.drop_last().len() implies a.drop_last()[i].drive_number
            != n by {
            assert(a.drop_last()[i] == a[i]);
        }
        with_number_of_others(a.drop_last(), n);
    }
}

/// There is one sorted form only: two sequences in ascending order that
/// hold, for every number, the same drives in the same order are the same.
pub proof fn sorted_form_is_unique(a: Seq<DriveModel>, b: Seq<DriveModel>)
    requires
        in_ascending_order(a),
        in_ascending_order(b),
        forall|n: u8| #[trigger] with_number(a, n) == with_number(b, n),
    ensures
        a == b,
    decreases a.len(),
{
    if a.len() == 0 {
        if b.len() > 0 {
            assert(with_number(b, b.last().drive_number).len() > 0);
            assert(with_number(a, b.last().drive_number).len() == 0);
        }
        assert(a =~= b);
    } else {
        let m = a.last().drive_number;
        assert(with_number(a, m) == with_number(a.drop_last(), m).push(a.last()));
        assert(with_number(b, m).len() > 0);
        assert(b.len() > 0);
        let k = b.last().drive_number;
        assert(with_number(b, k) == with_number(b.drop_last(), k).push(b.last()));
        if k != m {
            if k > m {
                assert forall|i: int| 0 <= i < a.len() implies a[i].drive_number != k by {
                    if i < a.len() - 1 {
                        assert(a[i].drive_number <= a[a.len() - 1].drive_number);
                    }
                }
                with_number_of_others(a, k);
                assert(with_number(a, k) == with_number(b, k));
            } else {
                assert forall|i: int| 0 <= i < b.len() implies b[i].drive_number != m by {
                    if i < b.len() - 1 {
                        assert(b[i].drive_number <= b[b.len() - 1].drive_number);
                    }
                }
                with_number_of_others(b, m);
            }
            assert(false);
        }
        assert(a.last() == with_number(a, m).last());
        assert(b.last() == with_number(b, m).last());
        let a0 = a.drop_last();
        let b0 = b.drop_last();
        assert forall|n: u8| #[trigger] with_number(a0, n) == with_number(b0, n) by {
            assert(with_number(a, n) == with_number(b, n));
            if n == m {
                assert(with_number(a0, m) == with_number(a, m).drop_last());
                assert(with_number(b0, m) == with_number(b, m).drop_last());
            }
        }
        assert(in_ascending_order(a0)) by {
            assert forall|i: int, j: int| 0 <= i < j < a0.len() implies a0[i].drive_number
                <= a0[j].drive_number by {
                assert(a0[i] == a[i] && a0[j] == a[j]);
            }
        }
        assert(in_ascending_order(b0)) by {
            assert forall|i: int, j: int| 0 <= i < j < b0.len() implies b0[i].drive_number
                <= b0[j].drive_number by {
                assert(b0[i] == b[i] && b0[j] == b[j]);
            }
        }
        sorted_form_is_unique(a0, b0);
        assert(a == a0.push(a.last()));
        assert(b == b0.push(b.last()));
    }
}

/// Putting a drive behind the drives of its number and of smaller numbers,
/// before those of greater numbers, keeps the sorted form.
proof fn placing_keeps_sorted_form(
    sorted: Seq<DriveModel>,
    drives: Seq<DriveModel>,
    drive: DriveModel,
    p: int,
)
    requires
        is_sorted_form_of(sorted, drives),
        0 <= p <= sorted.len(),
        forall|j: int| p <= j < sorted.len() ==> sorted[j].drive_number > drive.drive_number,
        p > 0 ==> sorted[p - 1].drive_number <= drive.drive_number,
    ensures
        is_sorted_form_of(sorted.insert(p, drive), drives.push(drive)),
{
    let placed = sorted.insert(p, drive);
    let head = sorted.take(p);
    let tail = sorted.skip(p);
    assert(placed == head + seq![drive] + tail);
    assert(sorted == head + tail);
    assert forall|i: int, j: int| 0 <= i < j < placed.len() implies placed[i].drive_number
        <= placed[j].drive_number by {
        if i < p && p > 0 {
            assert(sorted[i].drive_number <= sorted[p - 1].drive_number);
        }
        if j > p {
            assert(placed[j] == sorted[j - 1]);
        }
    }
    assert forall|n: u8| #[trigger] with_number(placed, n) == with_number(drives.push(drive), n) by {
        with_number_of_joined(head + seq![drive], tail, n);
        with_number_of_joined(head, seq![drive], n);
        with_number_of_joined(head, tail, n);
        assert(seq![drive].drop_last().len() == 0);
        assert(seq![drive].last() == drive);
        assert(with_number(seq![drive].drop_last(), n).len() == 0);
        assert(with_number(sorted, n) == with_number(drives, n));
        assert(drives.push(drive).drop_last() == drives);
        assert(drives.push(drive).last() == drive);
        if n == drive.drive_number {
            assert forall|i: int| 0 <= i < tail.len() implies tail[i].drive_number != n by {
                assert(tail[i] == sorted[p + i]);
            }
            with_number_of_others(tail, n);
            assert(with_number(seq![drive], n) == seq![drive]);
            assert(with_number(head, n) + with_number(tail, n) == with_number(head, n));
            assert(with_number(head, n) + seq![drive] + with_number(tail, n) == with_number(
                head,
                n,
            ).push(drive));
        } else {
            assert(with_number(seq![drive], n).len() == 0);
            assert(with_number(head, n) + with_number(seq![drive], n) == with_number(head, n));
        }
    }
}

/// Reads the number by which the tool counts the drive of `device`.
fn read_device_index(device: &Vec<char>) -> (r: Result<u8>)
    ensures
        match device_index(device@) {
            Ok(index) => r is Ok && r->Ok_0 == index && index <= LAST_DEVICE,
            Err(e) => r is Err && r->Err_0@ == e,
        },
{
    let prefix = chars_of("/dev/sr");
    if !has_prefix(device, &prefix) {
        return Err(MakeMkvError::InvalidOutputFormat("missing field".to_owned()));
    }
    let digits = copy_range(device, prefix.len(), device.len());
    assert(device@.skip(prefix.len() as int) == device@.subrange(
        prefix.len() as int,
        device.len() as int,
    ));
    if digits.len() > 0 && digits[0] == '+' {
        return Err(MakeMkvError::from_int_error(IntError::InvalidDigit));
    }
    match parse_number(&digits, LAST_DEVICE) {
        Ok(n) => Ok(n as u8),
        Err(e) => Err(MakeMkvError::from_int_error(e)),
    }
}

/// Reads the drive that a line of the list describes.
fn read_drive(line: &Vec<char>) -> (r: Result<Drive>)
    ensures
        match drive_of(line@) {
            Ok(drive) => r is Ok && r->Ok_0@ == drive,
            Err(e) => r is Err && r->Err_0@ == e,
        },
{
    let info = split_on(line, ',');
    assert(views(info@).len() == info.len());
    if info.len() < 7 {
        return Err(MakeMkvError::InvalidOutputFormat("missing field".to_owned()));
    }
    assert(info[6]@ == views(info@)[6]);
    assert(info[5]@ == views(info@)[5]);
    assert(info[4]@ == views(info@)[4]);
    let index = read_device_index(&cleaned(&info[6]))?;
    let label = cleaned(&info[5]);
    let title = if label.len() == 0 {
        "No disc inserted".to_owned()
    } else {
        text_of(&replaced_char(&label, '_', ' '))
    };
    Ok(
        Drive {
            drive_number: index + 1,
            drive_model: text_of(&cleaned(&info[4])),
            drive_media_title: title,
        },
    )
}

/// The drives that the tool's list `text` describes, ordered by their
/// numbers. A list without drives is an error of its own.
pub fn read_drives(text: &str) -> (r: Result<Vec<Drive>>)
    ensures
        match drives_in(lines(text@)) {
            Err(e) => r is Err && r->Err_0@ == e,
            Ok(found) => if found.len() == 0 {
                r is Err && r->Err_0@ == MakeMkvErrorModel::NoDrivesFound
            } else {
                r is Ok && r->Ok_0.len() == found.len() && is_sorted_form_of(
                    drive_views(r->Ok_0@),
                    found,
                )
            },
        },
{
    let all = lines_of(&chars_of(text));
    let marker = chars_of("DRV:");
    let device = chars_of("/dev/sr");
    let mut sorted: Vec<Drive> = Vec::new();
    let mut i: usize = 0;
    let ghost model = lines(text@);
    assert(model.take(0).len() == 0);
    assert(forall|n: u8| with_number(Seq::<DriveModel>::empty(), n).len() == 0);
    assert(drive_views(sorted@) == Seq::<DriveModel>::empty());
    while i < all.len()
        invariant
            i <= all.len(),
            views(all@) == model,
            model == lines(text@),
            marker@ == "DRV:"@,
            device@ == "/dev/sr"@,
            drives_in(model.take(i as int)) is Ok,
            is_sorted_form_of(drive_views(sorted@), drives_in(model.take(i as int))->Ok_0),
            drive_views(sorted@).len() == drives_in(model.take(i as int))->Ok_0.len(),
        decreases all.len() - i,
    {
        let line = &all[i];
        assert(line@ == model[i as int]);
        assert(model.take(i + 1).drop_last() == model.take(i as int));
        assert(model.take(i + 1).last() == line@);
        if has_prefix(line, &marker) && has_text(line, &device) {
            match read_drive(line) {
                Err(e) => {
                    proof {
                        drives_fault_stays(model, i as int + 1);
                    }
                    return Err(e);
                },
                Ok(drive) => {
                    let ghost found = drives_in(model.take(i as int))->Ok_0;
                    let ghost before = drive_views(sorted@);
                    let mut p: usize = sorted.len();
                    while p > 0 && sorted[p - 1].drive_number > drive.drive_number
                        invariant
                            p <= sorted.len(),
                            before == drive_views(sorted@),
                            forall|j: int|
                                p <= j < sorted.len() ==> before[j].drive_number
                                    > drive.drive_number,
                        decreases p,
                    {
                        assert(before[p - 1] == sorted[p - 1]@);
                        p -= 1;
                    }
                    proof {
                        if p > 0 {
                            assert(before[p - 1] == sorted[p - 1]@);
                        }
                        placing_keeps_sorted_form(before, found, drive@, p as int);
                    }
                    let ghost placed = drive@;
                    sorted.insert(p, drive);
                    assert(drive_views(sorted@) == before.insert(p as int, placed));
                },
            }
        }
        i += 1;
    }
    assert(model.take(i as int) == model);
    if sorted.len() == 0 {
        return Err(MakeMkvError::NoDrivesFound);
    }
    Ok(sorted)
}

/// Once a line describes a drive badly, the lines after it do not matter.
proof fn drives_fault_stays(lines: Seq<Seq<char>>, n: int)
    requires
        0 <= n <= lines.len(),
        drives_in(lines.take(n)) is Err,
    ensures
        drives_in(lines) == drives_in(lines.take(n)),
    decreases lines.len() - n,
{
    if n < lines.len() {
        assert(lines.take(n + 1).drop_last() == lines.take(n));
        drives_fault_stays(lines, n + 1);
    } else {
        assert(lines.take(n) == lines);
    }
}

/// What `get_drives` makes of the tool's answer `ran`.
pub open spec fn drive_list(ran: std::result::Result<ProcessOutput, String>) -> std::result::Result<
    Seq<DriveModel>,
    MakeMkvErrorModel,
> {
    match ran {
        Err(why) => Err(MakeMkvErrorModel::CommandExecutionError(why@)),
        Ok(output) => if !valid_utf8(output.stdout@) {
            Err(MakeMkvErrorModel::InvalidOutputFormat(utf8_error_text(output.stdout@)))
        } else {
            match drives_in(lines(decode_utf8(output.stdout@))) {
                Err(e) => Err(e),
                Ok(found) => if found.len() == 0 {
                    Err(MakeMkvErrorModel::NoDrivesFound)
                } else {
                    Ok(found)
                },
            }
        },
    }
}

/// The drives of the machine, from what became of the command that lists
/// them: `ran` holds the finished process, or why the tool could not be
/// launched. The drives come ordered by their numbers.
pub fn get_drives(ran: std::result::Result<ProcessOutput, String>) -> (r: Result<Vec<Drive>>)
    ensures
        match drive_list(ran) {
            Err(e) => r is Err && r->Err_0@ == e,
            Ok(found) => r is Ok && r->Ok_0.len() == found.len() && is_sorted_form_of(
                drive_views(r->Ok_0@),
                found,
            ),
        },
{
    match ran {
        Err(why) => Err(MakeMkvError::CommandExecutionError(why)),
        Ok(output) => match output_text(&output) {
            Err(e) => Err(e),
            Ok(text) => read_drives(text.as_str()),
        },
    }
}

} // verus!
