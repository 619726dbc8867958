use cord_ripper::makemkv::drive_report::{get_drives, read_drives, Drive};
use cord_ripper::makemkv::drives::DriveRegistry;
use cord_ripper::makemkv::errors::MakeMkvError;
use cord_ripper::makemkv::makemkv_core::MakeMkv;
use cord_ripper::makemkv::makemkv_helpers::ProcessOutput;

fn drive(number: u8, model: &str, title: &str) -> Drive {
    Drive { drive_number: number, drive_model: model.to_string(), drive_media_title: title.to_string() }
}

#[test]
fn second_claim_of_a_drive_is_refused() {
    let mut registry = DriveRegistry::new();
    assert!(registry.lock(1).is_ok());
    assert!(matches!(registry.lock(1), Err(MakeMkvError::DriveInUseError(1))));
    assert!(registry.is_locked(1));
}

#[test]
fn of_many_claims_one_wins() {
    let mut registry = DriveRegistry::new();
    let mut won = 0;
    let mut refused = 0;
    for _ in 0..10 {
        match registry.lock(4) {
            Ok(()) => won += 1,
            Err(MakeMkvError::DriveInUseError(4)) => refused += 1,
            Err(other) => panic!("unexpected error {:?}", other),
        }
        let _ = registry.lock(5);
        registry.unlock(5);
    }
    assert_eq!(won, 1);
    assert_eq!(refused, 9);
}

#[test]
fn claims_of_other_drives_do_not_interfere() {
    let mut registry = DriveRegistry::new();
    assert!(registry.lock(2).is_ok());
    assert!(registry.lock(1).is_ok());
    assert!(registry.lock(3).is_ok());
    registry.unlock(2);
    assert!(registry.is_locked(1));
    assert!(registry.is_locked(3));
    assert!(!registry.is_locked(2));
}

#[test]
fn release_is_idempotent() {
    let mut registry = DriveRegistry::new();
    registry.unlock(1);
    assert!(!registry.is_locked(1));
    assert!(registry.lock(1).is_ok());
    registry.unlock(1);
    registry.unlock(1);
    assert!(!registry.is_locked(1));
    assert!(registry.lock(1).is_ok());
}

#[test]
fn engine_claims_and_releases() {
    let mut engine = MakeMkv::new("/root");
    assert_eq!(engine.lock_drive(1), Ok(()));
    assert_eq!(engine.lock_drive(1), Err(MakeMkvError::DriveInUseError(1)));
    assert_eq!(engine.lock_drive(2), Ok(()));
    assert_eq!(engine.unlock_drive(1), Ok(()));
    assert_eq!(engine.unlock_drive(1), Ok(()));
    assert_eq!(engine.lock_drive(1), Ok(()));
    assert_eq!(engine.output_dir, "/root");
}

const LIST: &str = "MSG:1005,0,1,\"MakeMKV v1.17.6 linux(x64-release) started\",\"%1 started\",\"MakeMKV v1.17.6 linux(x64-release)\"\n\
DRV:1,0,999,0,\"DVD+R-DL TSSTcorp CDDVDW SH-224DB SB00\",\"\",\"/dev/sr1\"\n\
DRV:0,2,999,1,\"BD-RE HL-DT-ST BD-RE  WH16NS40 1.02\",\"MY_MOVIE_DISC\",\"/dev/sr0\"\n\
DRV:2,256,999,0,\"\",\"\",\"\"\n\
DRV:3,256,999,0,\"\",\"\",\"\"\n";

#[test]
fn drives_are_read_and_ordered() {
    let drives = read_drives(LIST).unwrap();
    assert_eq!(
        drives,
        vec![
            drive(1, "BD-RE HL-DT-ST BD-RE  WH16NS40 1.02", "MY MOVIE DISC"),
            drive(2, "DVD+R-DL TSSTcorp CDDVDW SH-224DB SB00", "No disc inserted"),
        ]
    );
}

#[test]
fn drives_of_one_number_keep_their_order() {
    let list = "DRV:0,2,999,1,\"second\",\"B\",\"/dev/sr1\"\nDRV:1,2,999,1,\"first\",\"A\",\"/dev/sr0\"\nDRV:2,2,999,1,\"third\",\"C\",\"/dev/sr1\"\nDRV:3,2,999,1,\"fourth\",\"D\",\"/dev/sr0\"\n";
    let drives = read_drives(list).unwrap();
    let models: Vec<&str> = drives.iter().map(|d| d.drive_model.as_str()).collect();
    assert_eq!(models, vec!["first", "fourth", "second", "third"]);
}

#[test]
fn list_without_drives_is_an_error() {
    assert_eq!(read_drives(""), Err(MakeMkvError::NoDrivesFound));
    assert_eq!(read_drives("MSG:1\nDRV:2,256,999,0,\"\",\"\",\"\"\n"), Err(MakeMkvError::NoDrivesFound));
}

#[test]
fn drive_line_with_a_bad_device_is_refused() {
    let digit = Err(MakeMkvError::InvalidOutputFormat("invalid digit found in string".to_string()));
    assert_eq!(read_drives("DRV:0,2,999,1,\"m\",\"t\",\"/dev/srX\"\n"), digit);
    assert_eq!(read_drives("DRV:0,2,999,1,\"m\",\"t\",/dev/sr0x\n"), digit);
    assert_eq!(read_drives("DRV:0,2,999,1,\"m\",\"t\",\"/dev/sr+1\"\n"), digit);
    assert_eq!(read_drives("DRV:0,2,999,1,\"m\",\"t\",\"/dev/sr-1\"\n"), digit);
    assert_eq!(read_drives("DRV:0,2,999,1,\"m\",\"t\",\"/dev/sr1 0\"\n"), digit);
    assert_eq!(
        read_drives("DRV:0,2,999,1,\"m\",\"t\",\"/dev/sr\"\n"),
        Err(MakeMkvError::InvalidOutputFormat("cannot parse integer from empty string".to_string()))
    );
}

#[test]
fn drive_line_that_lacks_its_device_is_refused() {
    let missing = Err(MakeMkvError::InvalidOutputFormat("missing field".to_string()));
    assert_eq!(read_drives("DRV:0,2,999,1,\"/dev/sr0\"\n"), missing);
    assert_eq!(read_drives("DRV:0,/dev/sr0,999,1,\"m\",\"t\",\"/dev\"\n"), missing);
    assert_eq!(read_drives("DRV:0,/dev/sr0,999,1,\"m\",\"t\",\"\"\n"), missing);
    assert_eq!(read_drives("DRV:0,2,999,1,\"m\",\"t\",\"x/dev/sr3\"\n"), missing);
    assert_eq!(read_drives("DRV:0,2,999,1,\"m\",\"t\",\"/dev/sg3\",/dev/sr3\n"), missing);
}

#[test]
fn device_number_is_read_whole() {
    let number = |device: &str| {
        read_drives(&format!("DRV:0,2,999,1,\"BD\",\"X\",{}\n", device)).map(|drives| drives[0].drive_number)
    };
    assert_eq!(number("\"/dev/sr0\""), Ok(1));
    assert_eq!(number("\"/dev/sr9\""), Ok(10));
    assert_eq!(number("\"/dev/sr10\""), Ok(11));
    assert_eq!(number("\"/dev/sr007\""), Ok(8));
    assert_eq!(number("/dev/sr12"), Ok(13));
    assert_eq!(number(" \"/dev/sr12\" \r"), Ok(13));
    assert_eq!(number("\"/dev/sr254\""), Ok(255));
    let large = Err(MakeMkvError::InvalidOutputFormat("number too large to fit in target type".to_string()));
    assert_eq!(number("\"/dev/sr255\""), large);
    assert_eq!(number("\"/dev/sr99999999999999999999999\""), large);
}

#[test]
fn listed_drive_is_the_drive_that_is_ripped() {
    for number in 1u8..=255 {
        let command = cord_ripper::makemkv::makemkv_helpers::title_info_command_for(number);
        let device = command.args[2].strip_prefix("dev:").unwrap();
        let list = format!("DRV:0,2,999,1,\"BD\",\"X\",\"{}\"\n", device);
        assert_eq!(read_drives(&list).unwrap()[0].drive_number, number);
    }
}

#[test]
fn drives_beyond_the_ninth_are_ordered_by_number() {
    let list = "DRV:10,2,999,1,\"k\",\"X\",\"/dev/sr10\"\nDRV:1,2,999,1,\"b\",\"Y\",\"/dev/sr1\"\nDRV:2,2,999,1,\"c\",\"Z\",\"/dev/sr2\"\n";
    let numbers: Vec<u8> = read_drives(list).unwrap().iter().map(|d| d.drive_number).collect();
    assert_eq!(numbers, vec![2, 3, 11]);
}

#[test]
fn get_drives_maps_its_failures() {
    assert_eq!(
        get_drives(Err("not found".to_string())),
        Err(MakeMkvError::CommandExecutionError("not found".to_string()))
    );
    let bad = ProcessOutput { stdout: vec![0xc3], stderr: Vec::new(), exit_code: Some(0) };
    assert_eq!(
        get_drives(Ok(bad)),
        Err(MakeMkvError::InvalidOutputFormat("incomplete utf-8 byte sequence from index 0".to_string()))
    );
    let good = ProcessOutput { stdout: LIST.as_bytes().to_vec(), stderr: Vec::new(), exit_code: Some(0) };
    assert_eq!(get_drives(Ok(good)).unwrap().len(), 2);
}
