use mft2bodyfile::record::FileNameAttr;
use mft2bodyfile::record::FileNamespace;
use mft2bodyfile::record::StandardInfoAttr;
use mft2bodyfile::FileTime;
use mft2bodyfile::MftReference;
use mft2bodyfile::TimestampTuple;

const EPOCH_TICKS: u64 = 116_444_736_000_000_000;

#[test]
fn unix_epoch_is_second_zero() {
    assert_eq!(FileTime::new(EPOCH_TICKS).unix_seconds(), 0);
}

#[test]
fn filetime_zero_is_the_year_1601() {
    assert_eq!(FileTime::new(0).unix_seconds(), -11_644_473_600);
}

#[test]
fn unix_seconds_round_towards_the_past() {
    assert_eq!(FileTime::new(EPOCH_TICKS + 9_999_999).unix_seconds(), 0);
    assert_eq!(FileTime::new(EPOCH_TICKS + 10_000_000).unix_seconds(), 1);
    assert_eq!(FileTime::new(EPOCH_TICKS - 1).unix_seconds(), -1);
    assert_eq!(FileTime::new(EPOCH_TICKS - 10_000_000).unix_seconds(), -1);
    assert_eq!(FileTime::new(EPOCH_TICKS - 10_000_001).unix_seconds(), -2);
}

#[test]
fn a_known_date_converts_exactly() {
    // 2013-10-19 12:16:53 UTC
    let ticks = u64::from_le_bytes([0x53, 0xC7, 0x8B, 0x18, 0xC5, 0xCC, 0xCE, 0x01]);
    assert_eq!(FileTime::new(ticks).unix_seconds(), 1_382_185_013);
}

#[test]
fn the_greatest_filetime_converts() {
    assert_eq!(FileTime::new(u64::MAX).unix_seconds(), 1_833_029_933_770);
}

#[test]
fn from_unix_is_read_back() {
    for seconds in [-11_644_473_600i64, -3600, -1, 0, 1, 1_600_000_000, 1_833_029_933_770] {
        let time = FileTime::from_unix(seconds, 1234).unwrap();
        assert_eq!(time.unix_seconds(), seconds);
    }
    assert_eq!(FileTime::from_unix(0, 0), Some(FileTime::new(EPOCH_TICKS)));
    assert_eq!(FileTime::from_unix(1, 5), Some(FileTime::new(EPOCH_TICKS + 10_000_005)));
}

#[test]
fn from_unix_knows_its_range() {
    assert_eq!(FileTime::from_unix(-11_644_473_601, 0), None);
    assert_eq!(FileTime::from_unix(0, 10_000_000), None);
    assert_eq!(FileTime::from_unix(1_833_029_933_771, 0), None);
    assert_eq!(FileTime::from_unix(1_833_029_933_770, 9_551_615), Some(FileTime::new(u64::MAX)));
    assert_eq!(FileTime::from_unix(1_833_029_933_770, 9_551_616), None);
}

#[test]
fn from_le_bytes_reads_eight_bytes() {
    assert_eq!(FileTime::from_le_bytes(&[1, 2, 3, 4, 5, 6, 7]), None);
    assert_eq!(
        FileTime::from_le_bytes(&[1, 2, 3, 4, 5, 6, 7, 8]),
        Some(FileTime::new(0x0807_0605_0403_0201))
    );
    assert_eq!(
        FileTime::from_le_bytes(&[0xff, 0, 0, 0, 0, 0, 0, 0x80, 9, 9]),
        Some(FileTime::new(0x8000_0000_0000_00ff))
    );
}

#[test]
fn times_are_ordered_to_the_microsecond() {
    assert!(FileTime::new(10).not_after(&FileTime::new(19)));
    assert!(FileTime::new(19).not_after(&FileTime::new(10)));
    assert!(FileTime::new(19).not_after(&FileTime::new(20)));
    assert!(!FileTime::new(20).not_after(&FileTime::new(19)));
}

fn standard_info(created: i64, modified: i64, mft_modified: i64, accessed: i64) -> StandardInfoAttr {
    StandardInfoAttr {
        created: FileTime::from_unix(created, 0).unwrap(),
        modified: FileTime::from_unix(modified, 0).unwrap(),
        mft_modified: FileTime::from_unix(mft_modified, 0).unwrap(),
        accessed: FileTime::from_unix(accessed, 0).unwrap(),
    }
}

#[test]
fn tuple_keeps_each_time_in_its_place() {
    let tuple = TimestampTuple::from_standard_info(&standard_info(10, 20, 30, 40));
    assert_eq!(tuple.created(), 10);
    assert_eq!(tuple.modified(), 20);
    assert_eq!(tuple.mft_modified(), 30);
    assert_eq!(tuple.accessed(), 40);
}

#[test]
fn pre_epoch_timestamp_is_clamped() {
    let tuple = TimestampTuple::from_standard_info(&standard_info(1, 2, 3, -3600));
    assert_eq!(tuple.accessed(), 0);
    assert_eq!(tuple.created(), 1);
    assert_eq!(tuple.modified(), 2);
    assert_eq!(tuple.mft_modified(), 3);
}

#[test]
fn every_pre_epoch_time_is_clamped() {
    let tuple = TimestampTuple::from_standard_info(&standard_info(-1, -2, -11_644_473_600, -3600));
    assert_eq!(tuple.created(), 0);
    assert_eq!(tuple.modified(), 0);
    assert_eq!(tuple.mft_modified(), 0);
    assert_eq!(tuple.accessed(), 0);
}

#[test]
fn tuple_of_a_file_name_attribute() {
    let attr = FileNameAttr {
        parent: MftReference::new(5, 5),
        created: FileTime::from_unix(100, 0).unwrap(),
        modified: FileTime::from_unix(-200, 0).unwrap(),
        mft_modified: FileTime::from_unix(300, 0).unwrap(),
        accessed: FileTime::from_unix(400, 0).unwrap(),
        logical_size: 7,
        namespace: FileNamespace::Win32,
        name: "a".to_owned(),
    };
    let tuple = TimestampTuple::from_filename(&attr);
    assert_eq!(tuple.created(), 100);
    assert_eq!(tuple.modified(), 0);
    assert_eq!(tuple.mft_modified(), 300);
    assert_eq!(tuple.accessed(), 400);
}

#[test]
fn tuple_of_an_event() {
    let tuple = TimestampTuple::from_event(&FileTime::from_unix(1_500_000_000, 77).unwrap());
    assert_eq!(tuple.accessed(), 1_500_000_000);
    assert_eq!(tuple.modified(), 0);
    assert_eq!(tuple.mft_modified(), 0);
    assert_eq!(tuple.created(), 0);
    let early = TimestampTuple::from_event(&FileTime::new(5));
    assert_eq!(early.accessed(), 0);
}

#[test]
fn from_is_what_the_named_constructors_are() {
    let info = standard_info(10, -20, 30, 40);
    assert_eq!(TimestampTuple::from(&info), TimestampTuple::from_standard_info(&info));
    let attr = FileNameAttr {
        parent: MftReference::new(5, 5),
        created: FileTime::from_unix(-100, 0).unwrap(),
        modified: FileTime::from_unix(200, 0).unwrap(),
        mft_modified: FileTime::from_unix(300, 0).unwrap(),
        accessed: FileTime::from_unix(400, 0).unwrap(),
        logical_size: 7,
        namespace: FileNamespace::Win32,
        name: "a".to_owned(),
    };
    assert_eq!(TimestampTuple::from(&attr), TimestampTuple::from_filename(&attr));
    assert_eq!(TimestampTuple::from(&attr).created(), 0);
}

#[test]
fn nanoseconds_are_cut_to_ticks() {
    assert_eq!(FileTime::from_unix_nanos(0, 0), Some(FileTime::new(EPOCH_TICKS)));
    assert_eq!(FileTime::from_unix_nanos(0, 99), Some(FileTime::new(EPOCH_TICKS)));
    assert_eq!(FileTime::from_unix_nanos(0, 100), Some(FileTime::new(EPOCH_TICKS + 1)));
    assert_eq!(
        FileTime::from_unix_nanos(2, 999_999_999),
        Some(FileTime::new(EPOCH_TICKS + 29_999_999))
    );
    assert_eq!(FileTime::from_unix_nanos(0, 1_000_000_000), None);
}
