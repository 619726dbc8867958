use cord_ripper::discord::commands::get_titles::{run as title_pages, PAGE_LIMIT};
use cord_ripper::discord::commands::rip::{
    disc_options_of, drive_from_choice, selected_titles, title_options_of, titles_left_out, MenuOption,
};
use cord_ripper::discord::commands::view_drives::{drive_field_of, run as drive_fields, Field};
use cord_ripper::makemkv::disc_report::Title;
use cord_ripper::makemkv::drive_report::Drive;

fn drive(number: u8, title: &str) -> Drive {
    Drive { drive_number: number, drive_model: format!("model {}", number), drive_media_title: title.to_string() }
}

fn title(id: u16, length: &str) -> Title {
    Title {
        title_id: id,
        chapters: 12,
        length: length.to_string(),
        size: "4.2 GB".to_string(),
        bitrate: "9 Mb/s".to_string(),
        resolution: "720x576".to_string(),
        aspect_ratio: "16:9".to_string(),
        frame_rate: "25".to_string(),
    }
}

#[test]
fn drive_is_shown_with_its_disc() {
    assert_eq!(
        drive_field_of(&drive(1, "MY DISC")),
        Field { name: "Drive 1: model 1".to_string(), value: "Title: MY DISC".to_string() }
    );
    assert_eq!(
        drive_field_of(&drive(12, "")),
        Field { name: "Drive 12: model 12".to_string(), value: "No disc inserted".to_string() }
    );
}

#[test]
fn drives_are_shown_in_their_order() {
    let fields = drive_fields(&vec![drive(2, "B"), drive(1, "A")]);
    let names: Vec<&str> = fields.iter().map(|f| f.name.as_str()).collect();
    assert_eq!(names, vec!["Drive 2: model 2", "Drive 1: model 1"]);
    assert!(drive_fields(&vec![]).is_empty());
}

#[test]
fn discs_are_offered_once() {
    let options = disc_options_of(&vec![drive(1, "A"), drive(2, "B"), drive(1, "C"), drive(3, ""), drive(2, "D")]);
    assert_eq!(
        options,
        vec![
            MenuOption { label: "Disc 1: A".to_string(), value: "disc_1".to_string(), description: String::new() },
            MenuOption { label: "Disc 2: B".to_string(), value: "disc_2".to_string(), description: String::new() },
            MenuOption { label: "Disc 3: ".to_string(), value: "disc_3".to_string(), description: String::new() },
        ]
    );
}

#[test]
fn offered_disc_comes_back_as_its_drive() {
    for number in [1u8, 9, 10, 255] {
        let options = disc_options_of(&vec![drive(number, "x")]);
        assert_eq!(drive_from_choice(&options[0].value), Ok(number));
    }
}

#[test]
fn titles_are_offered_with_their_details() {
    let options = title_options_of(&vec![title(1, "1:30:00")]);
    assert_eq!(
        options,
        vec![MenuOption {
            label: "Title: 1, Duration: 1:30:00".to_string(),
            value: "1".to_string(),
            description: "Chapters: 12, Size: 4.2 GB, Resolution: 720x576, Frame Rate: 25".to_string(),
        }]
    );
}

#[test]
fn menu_takes_the_first_titles_only() {
    let titles: Vec<Title> = (1..=30).map(|i| title(i, "0:10:00")).collect();
    let options = title_options_of(&titles);
    assert_eq!(options.len(), 25);
    assert_eq!(options[24].value, "25");
    assert!(titles_left_out(&titles));
    let titles: Vec<Title> = (1..=25).map(|i| title(i, "0:10:00")).collect();
    assert_eq!(title_options_of(&titles).len(), 25);
    assert!(!titles_left_out(&titles));
    assert!(title_options_of(&vec![]).is_empty());
}

#[test]
fn offered_titles_come_back_as_themselves() {
    let titles: Vec<Title> = vec![title(1, "a"), title(7, "b"), title(255, "c"), title(256, "d")];
    let values: Vec<String> = title_options_of(&titles).into_iter().map(|o| o.value).collect();
    assert_eq!(selected_titles(&values), vec![1, 7, 255]);
}

#[test]
fn titles_are_set_on_pages() {
    assert!(title_pages(&vec![]).is_empty());
    let one = title_pages(&vec![title(3, "1:00:00")]);
    assert_eq!(
        one,
        vec!["**Title 3**\nDuration: 1:00:00\nChapters: 12\nSize: 4.2 GB\nResolution: 720x576\nFrame Rate: 25\n\n".to_string()]
    );
    let entry = one[0].len();
    let titles: Vec<Title> = (1..=9).map(|_| title(3, "1:00:00")).collect();
    let pages = title_pages(&titles);
    let per_page = PAGE_LIMIT / entry + 1;
    assert_eq!(pages.len(), (titles.len() + per_page - 1) / per_page);
    for page in &pages[..pages.len() - 1] {
        assert_eq!(page.len(), per_page * entry);
        assert!(page.len() > PAGE_LIMIT);
    }
    assert_eq!(pages.concat(), one[0].repeat(9));
}

#[test]
fn pages_are_measured_in_bytes() {
    let long = "é".repeat(480);
    let pages = title_pages(&vec![title(1, &long), title(2, "x")]);
    assert_eq!(pages.len(), 2);
    let short = "e".repeat(480);
    let pages = title_pages(&vec![title(1, &short), title(2, "x")]);
    assert_eq!(pages.len(), 1);
}
