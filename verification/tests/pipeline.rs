use bodyfile::Bodyfile3Line;
use mft2bodyfile::record::EntryHeader;
use mft2bodyfile::record::FileNameAttr;
use mft2bodyfile::record::FileNamespace;
use mft2bodyfile::record::MftAttribute;
use mft2bodyfile::record::MftAttributeContent;
use mft2bodyfile::record::MftAttributeHeader;
use mft2bodyfile::record::MftEntry;
use mft2bodyfile::record::StandardInfoAttr;
use mft2bodyfile::task::accepts;
use mft2bodyfile::task::ingest;
use mft2bodyfile::task::merge_journal;
use mft2bodyfile::usnjrnl::CommonUsnRecord;
use mft2bodyfile::usnjrnl::UsnReason;
use mft2bodyfile::usnjrnl::UsnRecordCommonHeader;
use mft2bodyfile::usnjrnl::UsnRecordData;
use mft2bodyfile::usnjrnl::UsnRecordV2;
use mft2bodyfile::BodyfileSink;
use mft2bodyfile::FileTime;
use mft2bodyfile::Mft2BodyfileTask;
use mft2bodyfile::MftReference;
use mft2bodyfile::NtfsError;
use mft2bodyfile::PreprocessedMft;
use mft2bodyfile::UsnJrnl;
use std::convert::TryFrom;

const EPOCH_TICKS: u64 = 116_444_736_000_000_000;

fn root() -> MftReference {
    MftReference::new(5, 1)
}

fn si(seconds: i64) -> MftAttribute {
    MftAttribute {
        header: MftAttributeHeader { instance: 0, name_offset: None, name: String::new() },
        data: MftAttributeContent::StandardInformation(StandardInfoAttr {
            created: FileTime::from_unix(seconds, 0).unwrap(),
            modified: FileTime::from_unix(seconds, 0).unwrap(),
            mft_modified: FileTime::from_unix(seconds, 0).unwrap(),
            accessed: FileTime::from_unix(seconds, 0).unwrap(),
        }),
    }
}

fn name(instance: u16, name: &str, parent: MftReference, namespace: FileNamespace) -> MftAttribute {
    MftAttribute {
        header: MftAttributeHeader { instance, name_offset: None, name: String::new() },
        data: MftAttributeContent::FileName(FileNameAttr {
            parent,
            created: FileTime::from_unix(1, 0).unwrap(),
            modified: FileTime::from_unix(1, 0).unwrap(),
            mft_modified: FileTime::from_unix(1, 0).unwrap(),
            accessed: FileTime::from_unix(1, 0).unwrap(),
            logical_size: 10,
            namespace,
            name: name.to_owned(),
        }),
    }
}

fn record(
    number: u64,
    sequence: u16,
    base: MftReference,
    allocated: bool,
    directory: bool,
    size: u32,
    attributes: Vec<MftAttribute>,
) -> MftEntry {
    MftEntry {
        header: EntryHeader {
            record_number: number,
            sequence,
            base_reference: base,
            used_entry_size: size,
        },
        allocated,
        directory,
        attributes,
    }
}

fn file(number: u64, allocated: bool, file_name: &str, parent: MftReference) -> MftEntry {
    record(
        number,
        1,
        MftReference::new(0, 0),
        allocated,
        false,
        400,
        vec![si(1000), name(2, file_name, parent, FileNamespace::Win32AndDos)],
    )
}

fn event(file: MftReference, parent: MftReference, seconds: u64, reason: u32, name: &str) -> CommonUsnRecord {
    CommonUsnRecord {
        header: UsnRecordCommonHeader { RecordLength: 64, MajorVersion: 2, MinorVersion: 0 },
        data: UsnRecordData::V2(UsnRecordV2 {
            FileReferenceNumber: file,
            ParentFileReferenceNumber: parent,
            Usn: 0,
            TimeStamp: FileTime::new(EPOCH_TICKS + seconds * 10_000_000),
            Reason: UsnReason::from(reason),
            SourceInfo: 0,
            SecurityId: 0,
            FileAttributes: 0,
            FileName: name.to_owned(),
        }),
    }
}

fn sorted(mut lines: Vec<String>) -> Vec<String> {
    lines.sort();
    lines
}

#[test]
fn only_the_root_record() {
    let root_record = record(
        5,
        1,
        MftReference::new(0, 0),
        true,
        true,
        400,
        vec![si(1000), name(1, ".", root(), FileNamespace::Win32AndDos)],
    );
    let lines = Mft2BodyfileTask::default().run(vec![root_record], vec![]).unwrap();
    assert_eq!(
        lines,
        vec![
            "0|/|5-144-1|0|0|0|10|1000|1000|1000|1000",
            "0|/ ($FILE_NAME)|5-144-1|0|0|0|10|1|1|1|1",
        ]
    );
    let parsed = Bodyfile3Line::try_from(lines[0].as_str()).unwrap();
    assert_eq!(parsed.get_name(), "/");
    assert!(parsed.get_inode().starts_with("5-"));
    let parsed = Bodyfile3Line::try_from(lines[1].as_str()).unwrap();
    assert_eq!(parsed.get_name(), "/ ($FILE_NAME)");
}

#[test]
fn the_root_without_a_name() {
    let root_record = record(5, 5, MftReference::new(0, 0), true, true, 400, vec![si(1000)]);
    let lines = Mft2BodyfileTask::default().run(vec![root_record], vec![]).unwrap();
    assert_eq!(lines, vec!["0|/|5-144-1|0|0|0|0|1000|1000|1000|1000"]);
}

#[test]
fn deleted_file_in_live_directory() {
    let recycler = MftReference::new(40, 1);
    let lines = sorted(
        Mft2BodyfileTask::default()
            .run(
                vec![
                    file(5, true, ".", root()),
                    file(40, false, "RECYCLER", root()),
                    file(41, false, "desktop.ini", recycler),
                ],
                vec![],
            )
            .unwrap(),
    );
    let names: Vec<String> = lines
        .iter()
        .map(|l| Bodyfile3Line::try_from(l.as_str()).unwrap().get_name().to_owned())
        .collect();
    assert!(names.contains(&"/RECYCLER/desktop.ini (deleted)".to_owned()));
    assert!(names.contains(&"/RECYCLER/desktop.ini ($FILE_NAME) (deleted)".to_owned()));
    assert!(names.contains(&"/RECYCLER (deleted)".to_owned()));
    assert!(names.contains(&"/".to_owned()));
}

#[test]
fn dos_name_first_then_win32() {
    let entry = record(
        30,
        1,
        MftReference::new(0, 0),
        true,
        false,
        400,
        vec![
            si(1000),
            name(2, "EXAMPL~1.TXT", root(), FileNamespace::DOS),
            name(3, "example.txt", root(), FileNamespace::Win32),
        ],
    );
    let lines = Mft2BodyfileTask::default().run(vec![file(5, true, ".", root()), entry], vec![]).unwrap();
    let lines = sorted(lines);
    assert!(lines.contains(&"0|/example.txt|30-128-1|0|0|0|10|1000|1000|1000|1000".to_owned()));
    assert!(lines.contains(&"0|/example.txt ($FILE_NAME)|30-128-3|0|0|0|10|1|1|1|1".to_owned()));
    assert!(!lines.iter().any(|l| l.contains("EXAMPL~1.TXT")));
}

#[test]
fn records_that_extend_the_mft_never_appear() {
    let mut records = vec![file(5, true, ".", root())];
    for number in 0..40u64 {
        if number != 5 {
            records.push(file(number, true, &format!("file{}", number), root()));
        }
    }
    let lines = Mft2BodyfileTask::default().run(records, vec![]).unwrap();
    assert_eq!(lines.len(), 2 * (40 - 12));
    for number in 12..24u64 {
        assert!(!lines.iter().any(|l| l.contains(&format!("/file{}", number))));
    }
    for number in [11u64, 24] {
        assert!(lines.iter().any(|l| l.contains(&format!("/file{}|", number))));
    }
}

#[test]
fn filter_rule() {
    assert!(accepts(&file(11, true, "a", root())));
    assert!(!accepts(&file(12, true, "a", root())));
    assert!(!accepts(&file(23, false, "a", root())));
    assert!(accepts(&file(24, true, "a", root())));
    assert!(accepts(&file(0, false, "a", root())));
    let empty = record(30, 1, MftReference::new(0, 0), true, false, 0, vec![si(1)]);
    assert!(!accepts(&empty));
    let mut mft = PreprocessedMft::new();
    assert_eq!(ingest(&mut mft, empty), Ok(()));
    assert_eq!(ingest(&mut mft, file(15, true, "a", root())), Ok(()));
    assert_eq!(mft.len(), 0);
    assert_eq!(ingest(&mut mft, file(30, true, "a", root())), Ok(()));
    assert_eq!(mft.len(), 1);
}

#[test]
fn unallocated_nonbase_records_are_dropped() {
    let base = MftReference::new(30, 1);
    let mut mft = PreprocessedMft::new();
    mft.add_entry(record(
        31,
        1,
        base,
        false,
        false,
        400,
        vec![name(2, "ghost", root(), FileNamespace::Win32AndDos)],
    ))
    .unwrap();
    assert_eq!(mft.len(), 0);
    mft.add_entry(record(
        32,
        1,
        base,
        true,
        false,
        400,
        vec![name(2, "real", root(), FileNamespace::Win32)],
    ))
    .unwrap();
    assert_eq!(mft.len(), 1);
    assert!(mft.contains(&base));
    assert!(!mft.contains(&MftReference::new(32, 1)));
    let entry = mft.get(&base).unwrap();
    assert!(!entry.is_allocated());
    assert_eq!(entry.filename_info().as_ref().unwrap().filename(), "real");
}

#[test]
fn nonbase_before_base() {
    let base = MftReference::new(30, 1);
    let records = vec![
        file(5, true, ".", root()),
        record(
            31,
            1,
            base,
            true,
            false,
            400,
            vec![name(7, "long file name.txt", root(), FileNamespace::Win32)],
        ),
        record(
            30,
            1,
            MftReference::new(0, 0),
            true,
            false,
            400,
            vec![si(500), name(2, "LONGFI~1.TXT", root(), FileNamespace::DOS)],
        ),
    ];
    let lines = sorted(Mft2BodyfileTask::default().run(records, vec![]).unwrap());
    assert!(lines.contains(&"0|/long file name.txt|30-128-1|0|0|0|10|500|500|500|500".to_owned()));
    assert!(lines.contains(&"0|/long file name.txt ($FILE_NAME)|30-128-7|0|0|0|10|1|1|1|1".to_owned()));
    assert_eq!(lines.len(), 4);
}

#[test]
fn a_second_standard_information_ends_the_work() {
    let bad = record(30, 1, MftReference::new(0, 0), true, false, 400, vec![si(1), si(2)]);
    let result = Mft2BodyfileTask::fill_preprocessed_mft(vec![
        file(5, true, ".", root()),
        bad.clone(),
        file(31, true, "later", root()),
    ]);
    assert_eq!(result.err(), Some(NtfsError::MultipleStandardInfo(MftReference::new(30, 1))));
    assert_eq!(
        Mft2BodyfileTask::default().run(vec![bad], vec![]),
        Err(NtfsError::MultipleStandardInfo(MftReference::new(30, 1)))
    );
}

#[test]
fn a_path_that_is_not_found_ends_the_work() {
    let own = MftReference::new(30, 1);
    assert_eq!(
        Mft2BodyfileTask::default().run(vec![file(30, true, "self", own)], vec![]),
        Err(NtfsError::UnresolvedPath)
    );
}

#[test]
fn records_and_events_together() {
    let report = MftReference::new(30, 1);
    let unknown = MftReference::new(9999, 1);
    let lines = Mft2BodyfileTask::default()
        .with_usnjrnl_longflags(true)
        .run(
            vec![file(5, true, ".", root()), file(30, false, "report.docx", root())],
            vec![
                event(unknown, root(), 20, 0x200, "gone.tmp"),
                event(report, root(), 30, 0x8000_0000, "report.docx"),
                event(unknown, root(), 10, 0x100, "gone.tmp"),
                event(report, root(), 15, 0x1, "report.docx"),
            ],
        )
        .unwrap();
    assert_eq!(lines.len(), 8);
    let of_report: Vec<&String> = lines.iter().filter(|l| l.contains("|30-128-")).collect();
    assert_eq!(
        of_report,
        vec![
            "0|/report.docx (deleted)|30-128-1|0|0|0|10|1000|1000|1000|1000",
            "0|/report.docx ($FILE_NAME) (deleted)|30-128-2|0|0|0|10|1|1|1|1",
            "0|/report.docx ($UsnJrnl reason=USN_REASON_CLOSE) (deleted)|30-128-1|0|0|0|10|30|0|0|0",
            "0|/report.docx ($UsnJrnl reason=USN_REASON_DATA_OVERWRITE) (deleted)|30-128-1|0|0|0|10|15|0|0|0",
        ]
    );
    let of_unknown: Vec<&String> = lines.iter().filter(|l| l.contains("|9999-128-")).collect();
    assert_eq!(
        of_unknown,
        vec![
            "0|/gone.tmp ($UsnJrnl filename=gone.tmp reason=USN_REASON_FILE_DELETE) (deleted)|9999-128-1|0|0|0|0|20|0|0|0",
            "0|/gone.tmp ($UsnJrnl filename=gone.tmp reason=USN_REASON_FILE_CREATE) (deleted)|9999-128-1|0|0|0|0|10|0|0|0",
        ]
    );
}

#[test]
fn every_line_has_eleven_fields() {
    let report = MftReference::new(30, 1);
    let lines = Mft2BodyfileTask::default()
        .run(
            vec![
                file(5, true, ".", root()),
                file(30, false, "report.docx", root()),
                file(31, true, "notes.txt", report),
            ],
            vec![event(report, root(), 30, 0x200, "report.docx")],
        )
        .unwrap();
    assert_eq!(lines.len(), 7);
    for line in lines.iter() {
        assert_eq!(line.matches('|').count(), 10, "{}", line);
        let parsed = Bodyfile3Line::try_from(line.as_str()).unwrap();
        assert_eq!(parsed.get_md5(), "0");
        assert_eq!(parsed.get_mode(), "0");
        assert_eq!(parsed.get_uid(), 0);
        assert_eq!(parsed.get_gid(), 0);
        assert!(parsed.get_atime() >= 0);
        assert!(parsed.get_mtime() >= 0);
        assert!(parsed.get_ctime() >= 0);
        assert!(parsed.get_crtime() >= 0);
    }
}

#[test]
fn every_line_of_a_deleted_entry_is_marked() {
    let report = MftReference::new(30, 1);
    let lines = Mft2BodyfileTask::default()
        .run(
            vec![file(5, true, ".", root()), file(30, false, "report.docx", root())],
            vec![
                event(report, root(), 30, 0x200, "report.docx"),
                event(MftReference::new(31, 1), root(), 30, 0x200, "other"),
            ],
        )
        .unwrap();
    let marked: Vec<&String> = lines.iter().filter(|l| !l.contains("|5-128-")).collect();
    assert_eq!(marked.len(), 4);
    for line in marked {
        let parsed = Bodyfile3Line::try_from(line.as_str()).unwrap();
        assert!(parsed.get_name().ends_with(" (deleted)"), "{}", line);
    }
    for line in lines.iter().filter(|l| l.contains("|5-128-")) {
        assert!(!line.contains("(deleted)"));
    }
}

#[test]
fn merge_takes_every_group_in() {
    let mut mft = Mft2BodyfileTask::fill_preprocessed_mft(vec![
        file(5, true, ".", root()),
        file(30, true, "a", root()),
    ])
    .unwrap();
    let a = MftReference::new(30, 1);
    let b = MftReference::new(31, 1);
    let journal = UsnJrnl::from(vec![
        event(a, root(), 3, 1, "a"),
        event(b, root(), 2, 1, "b"),
        event(a, root(), 1, 1, "a"),
    ]);
    merge_journal(&mut mft, journal);
    assert_eq!(mft.len(), 3);
    assert_eq!(mft.get(&a).unwrap().usnjrnl_records().len(), 2);
    assert_eq!(mft.get(&b).unwrap().usnjrnl_records().len(), 1);
    assert!(mft.get(&a).unwrap().is_allocated());
    assert!(!mft.get(&b).unwrap().is_allocated());
    assert_eq!(mft.get(&root()).unwrap().usnjrnl_records().len(), 0);
    assert_eq!(mft.bodyfile_lines_count(), 7);
}

#[test]
fn the_task_keeps_what_it_is_given() {
    let task = Mft2BodyfileTask::default();
    assert_eq!(task.get_mft_file(), "");
    assert_eq!(*task.get_usnjrnl(), None);
    assert!(!task.get_usnjrnl_longflags());
    assert!(!task.get_progressbar());
    assert_eq!(*task.get_output(), BodyfileSink::Stdout);
    let task = task
        .with_mft_file("$MFT".to_owned())
        .with_usnjrnl(Some("$J".to_owned()))
        .with_usnjrnl_longflags(true)
        .with_progressbar(true)
        .with_output(BodyfileSink::File("out.txt".to_owned()));
    assert_eq!(task.get_mft_file(), "$MFT");
    assert_eq!(*task.get_usnjrnl(), Some("$J".to_owned()));
    assert!(task.get_usnjrnl_longflags());
    assert!(task.get_progressbar());
    assert_eq!(*task.get_output(), BodyfileSink::File("out.txt".to_owned()));
}

#[test]
fn pre_epoch_timestamp() {
    let entry = record(
        30,
        1,
        MftReference::new(0, 0),
        true,
        false,
        400,
        vec![MftAttribute {
            header: MftAttributeHeader { instance: 0, name_offset: None, name: String::new() },
            data: MftAttributeContent::StandardInformation(StandardInfoAttr {
                created: FileTime::from_unix(10, 0).unwrap(),
                modified: FileTime::from_unix(20, 0).unwrap(),
                mft_modified: FileTime::from_unix(30, 0).unwrap(),
                accessed: FileTime::from_unix(-3600, 0).unwrap(),
            }),
        }],
    );
    let lines = Mft2BodyfileTask::default().run(vec![entry], vec![]).unwrap();
    assert_eq!(lines, vec!["0|unnamed_30_1|30-128-1|0|0|0|0|0|20|30|10"]);
    let parsed = Bodyfile3Line::try_from(lines[0].as_str()).unwrap();
    assert_eq!(parsed.get_atime(), 0);
}

#[test]
fn an_empty_volume_gives_no_lines() {
    assert_eq!(Mft2BodyfileTask::default().run(vec![], vec![]), Ok(vec![]));
    assert_eq!(PreprocessedMft::default().len(), 0);
    assert!(UsnJrnl::default().is_empty());
}

#[test]
fn an_entry_without_a_name_and_without_events() {
    let mut mft = PreprocessedMft::new();
    mft.add_usnjrnl_records(MftReference::new(9999, 1), vec![]);
    let entry = mft.get(&MftReference::new(9999, 1)).unwrap();
    assert_eq!(entry.get_full_path(&mft), "unnamed_9999_1");
    assert!(mft.iter_entries(false).is_empty());
}
