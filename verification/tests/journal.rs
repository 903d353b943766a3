use mft2bodyfile::usnjrnl::usn_record::filetime_from_bytes;
use mft2bodyfile::usnjrnl::BinaryUsnRecordV2;
use mft2bodyfile::usnjrnl::CommonUsnRecord;
use mft2bodyfile::usnjrnl::UsnJrnlReader;
use mft2bodyfile::usnjrnl::UsnReaderError;
use mft2bodyfile::usnjrnl::UsnReason;
use mft2bodyfile::usnjrnl::UsnReasonValue;
use mft2bodyfile::usnjrnl::UsnRecordCommonHeader;
use mft2bodyfile::usnjrnl::UsnRecordData;
use mft2bodyfile::usnjrnl::UsnRecordV2;
use mft2bodyfile::FileTime;
use mft2bodyfile::MftReference;
use mft2bodyfile::UsnJrnl;

fn packed(entry: u64, sequence: u16) -> u64 {
    entry | ((sequence as u64) << 48)
}

/// The bytes of a record of the given major version, padded to a multiple
/// of eight bytes.
fn record_bytes(
    major: u16,
    file: u64,
    parent: u64,
    usn: i64,
    ticks: u64,
    reason: u32,
    name: &str,
) -> Vec<u8> {
    let units: Vec<u16> = name.encode_utf16().collect();
    let mut length = 60 + 2 * units.len();
    while length % 8 != 0 {
        length += 1;
    }
    let mut bytes = Vec::new();
    bytes.extend_from_slice(&(length as u32).to_le_bytes());
    bytes.extend_from_slice(&major.to_le_bytes());
    bytes.extend_from_slice(&0u16.to_le_bytes());
    bytes.extend_from_slice(&file.to_le_bytes());
    bytes.extend_from_slice(&parent.to_le_bytes());
    bytes.extend_from_slice(&usn.to_le_bytes());
    bytes.extend_from_slice(&ticks.to_le_bytes());
    bytes.extend_from_slice(&reason.to_le_bytes());
    bytes.extend_from_slice(&7u32.to_le_bytes());
    bytes.extend_from_slice(&8u32.to_le_bytes());
    bytes.extend_from_slice(&0x20u32.to_le_bytes());
    bytes.extend_from_slice(&((2 * units.len()) as u16).to_le_bytes());
    bytes.extend_from_slice(&60u16.to_le_bytes());
    for unit in units {
        bytes.extend_from_slice(&unit.to_le_bytes());
    }
    while bytes.len() < length {
        bytes.push(0);
    }
    bytes
}

fn event(file: MftReference, ticks: u64, name: &str) -> CommonUsnRecord {
    CommonUsnRecord {
        header: UsnRecordCommonHeader { RecordLength: 64, MajorVersion: 2, MinorVersion: 0 },
        data: UsnRecordData::V2(UsnRecordV2 {
            FileReferenceNumber: file,
            ParentFileReferenceNumber: MftReference::new(5, 5),
            Usn: 0,
            TimeStamp: FileTime::new(ticks),
            Reason: UsnReason::from(0x100),
            SourceInfo: 0,
            SecurityId: 0,
            FileAttributes: 0,
            FileName: name.to_owned(),
        }),
    }
}

fn names(events: &[CommonUsnRecord]) -> Vec<String> {
    events.iter().map(|e| e.data.filename().clone()).collect()
}

#[test]
fn reason_names_in_their_order() {
    assert_eq!(UsnReason::from(0x8000_0100).text(false), "CLOSE|FILE_CREATE");
    assert_eq!(UsnReason::from(0x8000_0100).text(true), "USN_REASON_CLOSE|USN_REASON_FILE_CREATE");
    assert_eq!(UsnReason::from(0x200).text(false), "FILE_DELETE");
    assert_eq!(UsnReason::from(0x200).text(true), "USN_REASON_FILE_DELETE");
    assert_eq!(UsnReason::from(0).text(false), "");
    assert_eq!(UsnReason::from(0).text(true), "");
    assert_eq!(UsnReason::from(0x0000_3000).text(false), "RENAME_NEW_NAME|RENAME_OLD_NAME");
}

#[test]
fn every_reason_is_named() {
    assert_eq!(
        UsnReason::from(0xffff_ffff).text(false),
        "BASIC_INFO_CHANGE|CLOSE|COMPRESSION_CHANGE|DATA_EXTEND|DATA_OVERWRITE|DATA_TRUNCATION|\
         EA_CHANGE|ENCRYPTION_CHANGE|FILE_CREATE|FILE_DELETE|HARD_LINK_CHANGE|INDEXABLE_CHANGE|\
         INTEGRITY_CHANGE|NAMED_DATA_EXTEND|NAMED_DATA_OVERWRITE|NAMED_DATA_TRUNCATION|\
         OBJECT_ID_CHANGE|RENAME_NEW_NAME|RENAME_OLD_NAME|REPARSE_POINT_CHANGE|SECURITY_CHANGE|\
         STREAM_CHANGE|TRANSACTED_CHANGE"
    );
    // bits that stand for no reason are not named
    assert_eq!(UsnReason::from(0x0100_0008).text(false), "");
}

#[test]
fn masks_and_names_of_the_reasons() {
    let all = [
        (UsnReasonValue::USN_REASON_BASIC_INFO_CHANGE, 0x0000_8000u32, "BASIC_INFO_CHANGE"),
        (UsnReasonValue::USN_REASON_CLOSE, 0x8000_0000, "CLOSE"),
        (UsnReasonValue::USN_REASON_COMPRESSION_CHANGE, 0x0002_0000, "COMPRESSION_CHANGE"),
        (UsnReasonValue::USN_REASON_DATA_EXTEND, 0x0000_0002, "DATA_EXTEND"),
        (UsnReasonValue::USN_REASON_DATA_OVERWRITE, 0x0000_0001, "DATA_OVERWRITE"),
        (UsnReasonValue::USN_REASON_DATA_TRUNCATION, 0x0000_0004, "DATA_TRUNCATION"),
        (UsnReasonValue::USN_REASON_EA_CHANGE, 0x0000_0400, "EA_CHANGE"),
        (UsnReasonValue::USN_REASON_ENCRYPTION_CHANGE, 0x0004_0000, "ENCRYPTION_CHANGE"),
        (UsnReasonValue::USN_REASON_FILE_CREATE, 0x0000_0100, "FILE_CREATE"),
        (UsnReasonValue::USN_REASON_FILE_DELETE, 0x0000_0200, "FILE_DELETE"),
        (UsnReasonValue::USN_REASON_HARD_LINK_CHANGE, 0x0001_0000, "HARD_LINK_CHANGE"),
        (UsnReasonValue::USN_REASON_INDEXABLE_CHANGE, 0x0000_4000, "INDEXABLE_CHANGE"),
        (UsnReasonValue::USN_REASON_INTEGRITY_CHANGE, 0x0080_0000, "INTEGRITY_CHANGE"),
        (UsnReasonValue::USN_REASON_NAMED_DATA_EXTEND, 0x0000_0020, "NAMED_DATA_EXTEND"),
        (UsnReasonValue::USN_REASON_NAMED_DATA_OVERWRITE, 0x0000_0010, "NAMED_DATA_OVERWRITE"),
        (UsnReasonValue::USN_REASON_NAMED_DATA_TRUNCATION, 0x0000_0040, "NAMED_DATA_TRUNCATION"),
        (UsnReasonValue::USN_REASON_OBJECT_ID_CHANGE, 0x0008_0000, "OBJECT_ID_CHANGE"),
        (UsnReasonValue::USN_REASON_RENAME_NEW_NAME, 0x0000_2000, "RENAME_NEW_NAME"),
        (UsnReasonValue::USN_REASON_RENAME_OLD_NAME, 0x0000_1000, "RENAME_OLD_NAME"),
        (UsnReasonValue::USN_REASON_REPARSE_POINT_CHANGE, 0x0010_0000, "REPARSE_POINT_CHANGE"),
        (UsnReasonValue::USN_REASON_SECURITY_CHANGE, 0x0000_0800, "SECURITY_CHANGE"),
        (UsnReasonValue::USN_REASON_STREAM_CHANGE, 0x0020_0000, "STREAM_CHANGE"),
        (UsnReasonValue::USN_REASON_TRANSACTED_CHANGE, 0x0040_0000, "TRANSACTED_CHANGE"),
    ];
    for (place, (flag, mask, name)) in all.iter().enumerate() {
        assert_eq!(flag.mask(), *mask);
        assert_eq!(flag.short_name(), *name);
        assert_eq!(flag.long_name(), format!("USN_REASON_{}", name));
        assert_eq!(flag.name(false), *name);
        assert_eq!(flag.name(true), format!("USN_REASON_{}", name));
        assert_eq!(UsnReasonValue::at(place), *flag);
        assert!(UsnReason::from(*mask).has_flag(*flag));
        assert!(!UsnReason::from(!*mask).has_flag(*flag));
        assert_eq!(UsnReason::from(*mask).text(false), *name);
    }
}

#[test]
fn version_two_record_is_decoded() {
    let bytes = record_bytes(
        2,
        packed(9999, 1),
        packed(5, 5),
        -77,
        116_444_736_000_000_000 + 12_345_678,
        0x8000_0200,
        "péché.txt",
    );
    let mut index = 0;
    let record = CommonUsnRecord::from(&bytes, &mut index).unwrap();
    assert_eq!(index, 0);
    assert_eq!(
        record.header,
        UsnRecordCommonHeader { RecordLength: 80, MajorVersion: 2, MinorVersion: 0 }
    );
    let UsnRecordData::V2(v2) = record.data;
    assert_eq!(v2.FileReferenceNumber, MftReference::new(9999, 1));
    assert_eq!(v2.ParentFileReferenceNumber, MftReference::new(5, 5));
    assert_eq!(v2.Usn, -77);
    assert_eq!(v2.TimeStamp, FileTime::new(116_444_736_012_345_678));
    assert_eq!(v2.TimeStamp.unix_seconds(), 1);
    assert_eq!(v2.Reason, UsnReason::from(0x8000_0200));
    assert_eq!(v2.SourceInfo, 7);
    assert_eq!(v2.SecurityId, 8);
    assert_eq!(v2.FileAttributes, 0x20);
    assert_eq!(v2.FileName, "péché.txt");
}

#[test]
fn packed_references_are_split() {
    assert_eq!(MftReference::from_u64(0x9168_0000_0000_0073), MftReference::new(115, 37224));
    assert_eq!(MftReference::from_u64(0), MftReference::new(0, 0));
    assert_eq!(
        MftReference::from_u64(u64::MAX),
        MftReference::new(0x0000_ffff_ffff_ffff, 0xffff)
    );
    assert_eq!(MftReference::new(1, 2).key(), 0x1_0002);
    assert!(MftReference::new(0, 0).is_null());
    assert!(!MftReference::new(0, 1).is_null());
}

#[test]
fn name_of_broken_utf16_is_decoded_lossily() {
    let mut bytes = record_bytes(2, packed(1, 1), packed(5, 5), 0, 0, 1, "ab");
    // an unpaired surrogate in place of the first character
    bytes[60] = 0x00;
    bytes[61] = 0xd8;
    let record = UsnRecordV2::from(&bytes, 0).unwrap();
    assert_eq!(record.FileName, "\u{fffd}b");
}

#[test]
fn record_with_an_empty_name() {
    let bytes = record_bytes(2, packed(1, 1), packed(5, 5), 0, 0, 1, "");
    assert_eq!(bytes.len(), 64);
    let record = UsnRecordV2::from(&bytes[..60], 0).unwrap();
    assert_eq!(record.FileName, "");
}

#[test]
fn record_is_read_where_the_reader_stands() {
    let mut bytes = vec![0xaa; 16];
    bytes.extend(record_bytes(2, packed(3, 1), packed(5, 5), 0, 0, 1, "x"));
    let mut index = 16;
    let record = CommonUsnRecord::from(&bytes, &mut index).unwrap();
    assert_eq!(index, 16);
    assert_eq!(record.data.filename(), "x");
    assert_eq!(record.data.file_reference(), MftReference::new(3, 1));
    assert_eq!(record.data.parent_reference(), MftReference::new(5, 5));
    assert_eq!(record.data.timestamp(), FileTime::new(0));
    assert_eq!(record.data.reason(), UsnReason::from(1));
}

#[test]
fn truncated_record_is_malformed() {
    let bytes = record_bytes(2, packed(1, 1), packed(5, 5), 0, 0, 1, "name");
    assert!(matches!(UsnRecordV2::from(&bytes[..59], 0), Err(UsnReaderError::MalformedRecord(_))));
    assert!(matches!(UsnRecordV2::from(&bytes[..67], 0), Err(UsnReaderError::MalformedRecord(_))));
    assert!(UsnRecordV2::from(&bytes[..68], 0).is_ok());
    assert!(matches!(UsnRecordV2::from(&bytes, usize::MAX), Err(UsnReaderError::MalformedRecord(_))));
    let mut index = 0;
    assert!(matches!(
        CommonUsnRecord::from(&bytes[..40], &mut index),
        Err(UsnReaderError::MalformedRecord(_))
    ));
}

#[test]
fn name_outside_the_data_is_malformed() {
    let mut bytes = record_bytes(2, packed(1, 1), packed(5, 5), 0, 0, 1, "name");
    // the name is said to begin far behind the record
    bytes[58] = 0xff;
    bytes[59] = 0xff;
    assert!(matches!(UsnRecordV2::from(&bytes, 0), Err(UsnReaderError::MalformedRecord(_))));
}

#[test]
fn versions_three_and_four_are_unsupported() {
    for version in [3u16, 4] {
        let bytes = record_bytes(version, 1, 2, 0, 0, 1, "name");
        let mut index = 0;
        assert!(matches!(
            CommonUsnRecord::from(&bytes, &mut index),
            Err(UsnReaderError::UnsupportedJournalVersion(v)) if v == version
        ));
        assert_eq!(index, 0);
    }
}

#[test]
fn other_versions_are_malformed() {
    for version in [0u16, 1, 5, 0xffff] {
        let bytes = record_bytes(version, 1, 2, 0, 0, 1, "name");
        let mut index = 0;
        let error = CommonUsnRecord::from(&bytes, &mut index).unwrap_err();
        assert!(matches!(error, UsnReaderError::MalformedRecord(_)));
        assert_eq!(
            error.message(),
            format!("Syntax Error: invalid value for MajorVersion: {}", version)
        );
    }
}

#[test]
fn no_header_is_no_more_data() {
    let bytes = record_bytes(2, 1, 2, 0, 0, 1, "name");
    for (data, at) in [(&bytes[..0], 0usize), (&bytes[..7], 0), (&bytes[..], 65), (&bytes[..], usize::MAX)] {
        let mut index = at;
        assert!(matches!(CommonUsnRecord::from(data, &mut index), Err(UsnReaderError::NoMoreData)));
        assert_eq!(index, at);
    }
}

#[test]
fn a_gap_leads_to_the_next_cluster() {
    let mut bytes = record_bytes(2, packed(1, 1), packed(5, 5), 0, 0, 1, "first");
    bytes.resize(0x1000, 0);
    bytes.extend(record_bytes(2, packed(2, 1), packed(5, 5), 0, 0, 1, "second"));
    let mut index = 72;
    let record = CommonUsnRecord::from(&bytes, &mut index).unwrap();
    assert_eq!(index, 0x1000);
    assert_eq!(record.data.filename(), "second");
}

#[test]
fn a_gap_at_the_start_of_a_cluster_skips_the_cluster() {
    let mut bytes = vec![0u8; 0x1000];
    bytes.extend(record_bytes(2, packed(2, 1), packed(5, 5), 0, 0, 1, "second"));
    let mut index = 0;
    let record = CommonUsnRecord::from(&bytes, &mut index).unwrap();
    assert_eq!(index, 0x1000);
    assert_eq!(record.data.filename(), "second");
}

#[test]
fn two_gaps_are_the_end() {
    let bytes = vec![0u8; 0x3000];
    let mut index = 8;
    assert!(matches!(CommonUsnRecord::from(&bytes, &mut index), Err(UsnReaderError::NoMoreData)));
    assert_eq!(index, 0x1000);
}

#[test]
fn a_gap_before_the_end_of_the_data_is_the_end() {
    let bytes = vec![0u8; 0x1004];
    let mut index = 16;
    assert!(matches!(CommonUsnRecord::from(&bytes, &mut index), Err(UsnReaderError::NoMoreData)));
    assert_eq!(index, 0x1000);
}

#[test]
fn fixed_fields_are_read_from_their_places() {
    let bytes = record_bytes(2, 11, 22, i64::MIN, 44, 55, "n");
    assert_eq!(
        BinaryUsnRecordV2::from_bytes(&bytes, 0),
        Some(BinaryUsnRecordV2 {
            FileReferenceNumber: 11,
            ParentFileReferenceNumber: 22,
            Usn: i64::MIN,
            TimeStamp: 44,
            Reason: 55,
            SourceInfo: 7,
            SecurityId: 8,
            FileAttributes: 0x20,
            FileNameLength: 2,
            FileNameOffset: 60,
        })
    );
    assert_eq!(BinaryUsnRecordV2::from_bytes(&bytes, 5), None);
    assert_eq!(
        UsnRecordCommonHeader::from_bytes(&bytes, 0),
        Some(UsnRecordCommonHeader { RecordLength: 64, MajorVersion: 2, MinorVersion: 0 })
    );
    assert_eq!(UsnRecordCommonHeader::from_bytes(&bytes, 57), None);
    let fixed = BinaryUsnRecordV2::from_bytes(&bytes, 0).unwrap();
    let record = UsnRecordV2::from_fields(&fixed, "given".to_owned());
    assert_eq!(record.FileName, "given");
    assert_eq!(record.FileReferenceNumber, MftReference::new(11, 0));
    assert_eq!(record.Usn, i64::MIN);
    assert_eq!(record.TimeStamp, FileTime::new(44));
}

#[test]
fn too_few_bytes_are_no_filetime() {
    assert!(matches!(
        filetime_from_bytes(&[1, 2, 3]),
        Err(UsnReaderError::FailedToReadWindowsTime(bytes)) if bytes == vec![1, 2, 3]
    ));
    assert_eq!(filetime_from_bytes(&[7, 0, 0, 0, 0, 0, 0, 0]).unwrap(), FileTime::new(7));
}

#[test]
fn reader_error_messages() {
    assert_eq!(UsnReaderError::NoMoreData.message(), "no more data");
    assert_eq!(
        UsnReaderError::MalformedRecord("what".to_owned()).message(),
        "Syntax Error: what"
    );
    assert_eq!(
        UsnReaderError::UnsupportedJournalVersion(3).message(),
        "unsupported journal version: 3"
    );
    assert_eq!(
        UsnReaderError::FailedToReadWindowsTime(vec![1, 20, 255]).message(),
        "failed to read windows time: [1, 20, 255]"
    );
    assert_eq!(
        UsnReaderError::FailedToReadWindowsTime(vec![]).message(),
        "failed to read windows time: []"
    );
    let io = UsnReaderError::from(std::io::Error::new(std::io::ErrorKind::Other, "broken pipe"));
    assert!(matches!(io, UsnReaderError::IO(_)));
    assert_eq!(io.message(), "IO Error: broken pipe");
}

#[test]
fn reader_walks_the_records() {
    let mut bytes = record_bytes(2, packed(1, 1), packed(5, 5), 0, 10, 1, "one");
    bytes.extend(record_bytes(3, 0, 0, 0, 0, 0, "three"));
    bytes.extend(record_bytes(2, packed(2, 1), packed(5, 5), 0, 20, 1, "two"));
    bytes.resize(0x2000, 0);
    bytes.extend(record_bytes(2, packed(4, 1), packed(5, 5), 0, 30, 1, "four"));
    let mut reader = UsnJrnlReader::from(bytes.clone());
    assert_eq!(reader.next().unwrap().unwrap().data.filename(), "one");
    assert!(matches!(
        reader.next(),
        Some(Err(UsnReaderError::UnsupportedJournalVersion(3)))
    ));
    assert_eq!(reader.next().unwrap().unwrap().data.filename(), "two");
    assert!(!reader.is_finished());
    // the rest of the first cluster and the second cluster are empty
    assert!(reader.next().is_none());
    assert!(reader.is_finished());
    assert!(reader.next().is_none());

    let mut all = UsnJrnlReader::from(bytes);
    let readings = all.read_all();
    assert_eq!(readings.len(), 3);
    assert!(all.is_finished());
}

#[test]
fn reader_crosses_one_gap() {
    let mut bytes = record_bytes(2, packed(1, 1), packed(5, 5), 0, 10, 1, "one");
    bytes.resize(0x1000, 0);
    bytes.extend(record_bytes(2, packed(4, 1), packed(5, 5), 0, 30, 1, "four"));
    let mut reader = UsnJrnlReader::from(bytes);
    let readings = reader.read_all();
    let names: Vec<String> =
        readings.into_iter().map(|r| r.unwrap().data.filename().clone()).collect();
    assert_eq!(names, vec!["one".to_owned(), "four".to_owned()]);
}

#[test]
fn reader_of_nothing() {
    let mut reader = UsnJrnlReader::from(vec![]);
    assert!(reader.read_all().is_empty());
    assert!(reader.is_finished());
}

#[test]
fn reader_passes_a_malformed_record() {
    let mut bytes = record_bytes(9, 0, 0, 0, 0, 0, "bad");
    bytes.extend(record_bytes(2, packed(4, 1), packed(5, 5), 0, 30, 1, "good"));
    let mut reader = UsnJrnlReader::from(bytes);
    assert!(matches!(reader.next(), Some(Err(UsnReaderError::MalformedRecord(_)))));
    assert_eq!(reader.next().unwrap().unwrap().data.filename(), "good");
    assert!(reader.next().is_none());
}

#[test]
fn events_are_grouped_by_file() {
    let a = MftReference::new(10, 1);
    let b = MftReference::new(10, 2);
    let journal = UsnJrnl::from(vec![
        event(a, 30, "a1"),
        event(b, 20, "b1"),
        event(a, 10, "a2"),
        event(a, 10, "a3"),
        event(b, 5, "b2"),
    ]);
    assert_eq!(journal.len(), 2);
    assert!(!journal.is_empty());
    let mut pairs = journal.into_iter();
    pairs.sort_by_key(|pair| pair.0.sequence);
    assert_eq!(pairs.len(), 2);
    assert_eq!(pairs[0].0, a);
    assert_eq!(names(&pairs[0].1), vec!["a1", "a2", "a3"]);
    assert_eq!(pairs[1].0, b);
    assert_eq!(names(&pairs[1].1), vec!["b1", "b2"]);
}

#[test]
fn an_empty_journal() {
    let journal = UsnJrnl::new();
    assert!(journal.is_empty());
    assert_eq!(journal.len(), 0);
    assert!(journal.into_iter().is_empty());
    assert!(UsnJrnl::from(vec![]).is_empty());
    let mut one = UsnJrnl::new();
    one.insert(event(MftReference::new(1, 1), 0, "x"));
    assert_eq!(one.len(), 1);
    assert!(!one.is_empty());
}

#[test]
fn drain_hands_every_group_out_once() {
    let a = MftReference::new(10, 1);
    let b = MftReference::new(11, 1);
    let c = MftReference::new(0x0000_ffff_ffff_ffff, 0xffff);
    let mut journal = UsnJrnl::default();
    for (file, name) in [(a, "a1"), (b, "b1"), (c, "c1"), (a, "a2"), (c, "c2"), (c, "c3")] {
        journal.insert(event(file, 0, name));
    }
    assert_eq!(journal.len(), 3);
    let mut pairs = journal.drain();
    pairs.sort_by_key(|pair| pair.0.entry);
    let files: Vec<MftReference> = pairs.iter().map(|pair| pair.0).collect();
    assert_eq!(files, vec![a, b, c]);
    assert_eq!(names(&pairs[0].1), vec!["a1", "a2"]);
    assert_eq!(names(&pairs[1].1), vec!["b1"]);
    assert_eq!(names(&pairs[2].1), vec!["c1", "c2", "c3"]);
}
