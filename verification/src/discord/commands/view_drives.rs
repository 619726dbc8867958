//! How the drives are shown.
use crate::decimal::{decimal_digits, push_decimal};
use crate::makemkv::drive_report::{Drive, DriveModel};
use crate::text::{push_text, text_of};
use vstd::prelude::*;

verus! {

/// A name and a value, as a message shows them.
#[derive(Debug, PartialEq, Eq)]
pub struct Field {
    pub name: String,
    pub value: String,
}

/// A `Field` as character sequences.
pub struct FieldModel {
    pub name: Seq<char>,
    pub value: Seq<char>,
}

impl View for Field {
    type V = FieldModel;

    open spec fn view(&self) -> FieldModel {
        FieldModel { name: self.name@, value: self.value@ }
    }
}

/// The fields that a vector holds.
pub open spec fn field_views(fields: Seq<Field>) -> Seq<FieldModel> {
    Seq::new(fields.len(), |i: int| fields[i]@)
}

/// The field that shows a drive: its number and model, and the title of its
/// disc or words that say that it has none.
pub open spec fn drive_field(drive: DriveModel) -> FieldModel {
    FieldModel {
        name: "Drive "@ + decimal_digits(drive.drive_number as nat) + ": "@ + drive.drive_model,
        value: if drive.drive_media_title.len() == 0 {
            "No disc inserted"@
        } else {
            "Title: "@ + drive.drive_media_title
        },
    }
}

/// The field that shows `drive`.
pub fn drive_field_of(drive: &Drive) -> (r: Field)
    ensures
        r@ == drive_field(drive@),
{
    let mut name: Vec<char> = Vec::new();
    push_text(&mut name, "Drive ");
    push_decimal(&mut name, drive.drive_number as u64);
    push_text(&mut name, ": ");
    push_text(&mut name, drive.drive_model.as_str());
    assert(name@ == drive_field(drive@).name);
    let value = if drive.drive_media_title.as_str().is_empty() {
        "No disc inserted".to_owned()
    } else {
        crate::makemkv::errors::joined("Title: ", drive.drive_media_title.as_str())
    };
    Field { name: text_of(&name), value }
}

/// The fields that show `drives`, one for each, in their order.
pub fn run(drives: &Vec<Drive>) -> (r: Vec<Field>)
    ensures
        r.len() == drives.len(),
        forall|i: int| 0 <= i < drives.len() ==> (#[trigger] r[i])@ == drive_field(drives[i]@),
{
    let mut fields: Vec<Field> = Vec::new();
    let mut i: usize = 0;
    while i < drives.len()
        invariant
            i <= drives.len(),
            fields.len() == i,
            forall|k: int| 0 <= k < i ==> (#[trigger] fields[k])@ == drive_field(drives[k]@),
        decreases drives.len() - i,
    {
        fields.push(drive_field_of(&drives[i]));
        i += 1;
    }
    fields
}

} // verus!
