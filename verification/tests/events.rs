use mft2bodyfile::intern::bodyfile_lines::parent_annotation;
use mft2bodyfile::intern::event_order::insert_event;
use mft2bodyfile::intern::event_order::merge_events;
use mft2bodyfile::intern::event_order::sort_events;
use mft2bodyfile::record::EntryHeader;
use mft2bodyfile::record::FileNameAttr;
use mft2bodyfile::record::FileNamespace;
use mft2bodyfile::record::MftAttribute;
use mft2bodyfile::record::MftAttributeContent;
use mft2bodyfile::record::MftAttributeHeader;
use mft2bodyfile::record::MftEntry;
use mft2bodyfile::record::StandardInfoAttr;
use mft2bodyfile::usnjrnl::CommonUsnRecord;
use mft2bodyfile::usnjrnl::UsnReason;
use mft2bodyfile::usnjrnl::UsnRecordCommonHeader;
use mft2bodyfile::usnjrnl::UsnRecordData;
use mft2bodyfile::usnjrnl::UsnRecordV2;
use mft2bodyfile::CompleteMftEntry;
use mft2bodyfile::FileTime;
use mft2bodyfile::MftReference;
use mft2bodyfile::ParentInfo;
use mft2bodyfile::PreprocessedMft;

const EPOCH_TICKS: u64 = 116_444_736_000_000_000;

fn event_at(
    file: MftReference,
    parent: MftReference,
    ticks: u64,
    reason: u32,
    name: &str,
) -> CommonUsnRecord {
    CommonUsnRecord {
        header: UsnRecordCommonHeader { RecordLength: 64, MajorVersion: 2, MinorVersion: 0 },
        data: UsnRecordData::V2(UsnRecordV2 {
            FileReferenceNumber: file,
            ParentFileReferenceNumber: parent,
            Usn: 0,
            TimeStamp: FileTime::new(ticks),
            Reason: UsnReason::from(reason),
            SourceInfo: 0,
            SecurityId: 0,
            FileAttributes: 0,
            FileName: name.to_owned(),
        }),
    }
}

fn event(ticks: u64, name: &str) -> CommonUsnRecord {
    event_at(MftReference::new(50, 1), MftReference::new(5, 5), ticks, 0x100, name)
}

fn names(events: &[CommonUsnRecord]) -> Vec<String> {
    events.iter().map(|e| e.data.filename().clone()).collect()
}

fn record(number: u64, sequence: u16, allocated: bool, name: Option<&str>, parent: MftReference) -> MftEntry {
    let mut attributes = vec![MftAttribute {
        header: MftAttributeHeader { instance: 0, name_offset: None, name: String::new() },
        data: MftAttributeContent::StandardInformation(StandardInfoAttr {
            created: FileTime::new(EPOCH_TICKS + 10_000_000),
            modified: FileTime::new(EPOCH_TICKS + 20_000_000),
            mft_modified: FileTime::new(EPOCH_TICKS + 30_000_000),
            accessed: FileTime::new(EPOCH_TICKS + 40_000_000),
        }),
    }];
    if let Some(name) = name {
        attributes.push(MftAttribute {
            header: MftAttributeHeader { instance: 3, name_offset: None, name: String::new() },
            data: MftAttributeContent::FileName(FileNameAttr {
                parent,
                created: FileTime::new(EPOCH_TICKS + 50_000_000),
                modified: FileTime::new(EPOCH_TICKS + 60_000_000),
                mft_modified: FileTime::new(EPOCH_TICKS + 70_000_000),
                accessed: FileTime::new(EPOCH_TICKS + 80_000_000),
                logical_size: 4096,
                namespace: FileNamespace::Win32AndDos,
                name: name.to_owned(),
            }),
        });
    }
    MftEntry {
        header: EntryHeader {
            record_number: number,
            sequence,
            base_reference: MftReference::new(0, 0),
            used_entry_size: 100,
        },
        allocated,
        directory: false,
        attributes,
    }
}

fn root() -> MftReference {
    MftReference::new(5, 5)
}

fn lines_of(mft: &PreprocessedMft, reference: MftReference, long: bool) -> Vec<String> {
    let mut lines = mft.get(&reference).unwrap().bodyfile_lines(mft, long);
    let mut all = Vec::new();
    while let Some(line) = lines.next() {
        all.push(line);
    }
    all
}

#[test]
fn events_are_sorted_by_time() {
    let sorted =
        sort_events(vec![event(300, "c"), event(100, "a"), event(400, "d"), event(200, "b")]);
    assert_eq!(names(&sorted), vec!["a", "b", "c", "d"]);
}

#[test]
fn sorting_is_stable() {
    let sorted = sort_events(vec![
        event(200, "first of 200"),
        event(100, "first of 100"),
        event(200, "second of 200"),
        event(100, "second of 100"),
        event(200, "third of 200"),
    ]);
    assert_eq!(
        names(&sorted),
        vec!["first of 100", "second of 100", "first of 200", "second of 200", "third of 200"]
    );
}

#[test]
fn times_within_one_microsecond_are_one_time() {
    let sorted = sort_events(vec![event(19, "later tick"), event(10, "earlier tick"), event(9, "before")]);
    assert_eq!(names(&sorted), vec!["before", "later tick", "earlier tick"]);
}

#[test]
fn sorting_nothing_and_one() {
    assert!(sort_events(vec![]).is_empty());
    assert_eq!(names(&sort_events(vec![event(5, "only")])), vec!["only"]);
}

#[test]
fn insert_goes_behind_events_of_the_same_time() {
    let mut events = sort_events(vec![event(100, "a"), event(200, "b"), event(300, "c")]);
    insert_event(&mut events, event(200, "new"));
    assert_eq!(names(&events), vec!["a", "b", "new", "c"]);
    insert_event(&mut events, event(0, "first"));
    insert_event(&mut events, event(1000, "last"));
    assert_eq!(names(&events), vec!["first", "a", "b", "new", "c", "last"]);
}

#[test]
fn merge_keeps_the_order() {
    let mut events = sort_events(vec![event(100, "a"), event(300, "c")]);
    merge_events(&mut events, vec![event(400, "d"), event(200, "b"), event(300, "c2"), event(50, "0")]);
    assert_eq!(names(&events), vec!["0", "a", "b", "c", "c2", "d"]);
}

#[test]
fn journal_records_of_an_entry_are_in_ascending_order() {
    let file = MftReference::new(50, 1);
    let mut entry =
        CompleteMftEntry::from_usnjrnl_records(file, vec![event(300, "c"), event(100, "a")]);
    assert_eq!(names(entry.usnjrnl_records()), vec!["a", "c"]);
    entry.add_usnjrnl_records(vec![event(200, "b"), event(50, "0"), event(300, "c2")]);
    assert_eq!(names(entry.usnjrnl_records()), vec!["0", "a", "b", "c", "c2"]);
    assert!(!entry.is_allocated());
    assert!(!entry.is_directory());
    assert_eq!(*entry.base_entry(), file);
    assert_eq!(entry.bodyfile_lines_count(), 5);
    assert_eq!(entry.own_name(), "c2");
    assert_eq!(entry.parent_hint(), Some(root()));
}

#[test]
fn lines_come_in_their_order() {
    let file = MftReference::new(50, 1);
    let mut mft = PreprocessedMft::new();
    mft.add_entry(record(5, 5, true, Some("."), root())).unwrap();
    mft.add_entry(record(50, 1, true, Some("report.docx"), root())).unwrap();
    mft.add_usnjrnl_records(
        file,
        vec![
            event_at(file, root(), EPOCH_TICKS + 2_000_000_000, 0x8000_0002, "report.docx"),
            event_at(file, root(), EPOCH_TICKS + 1_000_000_000, 0x100, "report.docx"),
            event_at(file, root(), EPOCH_TICKS + 3_000_000_000, 0x1000, "report.docx"),
        ],
    );
    assert_eq!(
        lines_of(&mft, file, false),
        vec![
            "0|/report.docx|50-128-1|0|0|0|4096|4|2|3|1",
            "0|/report.docx ($FILE_NAME)|50-128-3|0|0|0|4096|8|6|7|5",
            "0|/report.docx ($UsnJrnl reason=RENAME_OLD_NAME)|50-128-1|0|0|0|4096|300|0|0|0",
            "0|/report.docx ($UsnJrnl reason=CLOSE|DATA_EXTEND)|50-128-1|0|0|0|4096|200|0|0|0",
            "0|/report.docx ($UsnJrnl reason=FILE_CREATE)|50-128-1|0|0|0|4096|100|0|0|0",
        ]
    );
    assert_eq!(
        lines_of(&mft, file, true)[3],
        "0|/report.docx ($UsnJrnl reason=USN_REASON_CLOSE|USN_REASON_DATA_EXTEND)|50-128-1|0|0|0|4096|200|0|0|0"
    );
    assert_eq!(mft.get(&file).unwrap().bodyfile_lines_count(), 5);
    assert_eq!(mft.bodyfile_lines_count(), 7);
}

#[test]
fn lines_are_given_out_one_by_one() {
    let file = MftReference::new(50, 1);
    let mut mft = PreprocessedMft::new();
    mft.add_entry(record(50, 1, false, Some("x"), MftReference::new(77, 1))).unwrap();
    mft.add_usnjrnl_records(file, vec![event_at(file, root(), 0, 0x100, "x")]);
    let mut lines = mft.get(&file).unwrap().bodyfile_lines(&mft, false);
    assert_eq!(lines.remaining(), 3);
    assert_eq!(lines.next().unwrap(), "0|/$OrphanFiles/x (deleted)|50-128-1|0|0|0|4096|4|2|3|1");
    assert_eq!(lines.remaining(), 2);
    assert_eq!(
        lines.next().unwrap(),
        "0|/$OrphanFiles/x ($FILE_NAME) (deleted)|50-128-3|0|0|0|4096|8|6|7|5"
    );
    assert_eq!(
        lines.next().unwrap(),
        "0|/$OrphanFiles/x ($UsnJrnl parent='/$OrphanFiles' reason=FILE_CREATE) (deleted)|50-128-1|0|0|0|4096|0|0|0|0"
    );
    assert_eq!(lines.remaining(), 0);
    assert_eq!(lines.next(), None);
    assert_eq!(lines.next(), None);
}

#[test]
fn the_event_names_the_file_where_the_mft_names_it_otherwise() {
    let file = MftReference::new(50, 1);
    let mut mft = PreprocessedMft::new();
    mft.add_entry(record(5, 5, true, Some("."), root())).unwrap();
    mft.add_entry(record(50, 1, true, Some("new name"), root())).unwrap();
    mft.add_usnjrnl_records(file, vec![event_at(file, root(), 0, 0x1000, "old name")]);
    assert_eq!(
        lines_of(&mft, file, false)[2],
        "0|/new name ($UsnJrnl filename=old name reason=RENAME_OLD_NAME)|50-128-1|0|0|0|4096|0|0|0|0"
    );
}

#[test]
fn orphan_journal_record() {
    let file = MftReference::new(9999, 1);
    let mut mft = PreprocessedMft::new();
    mft.add_entry(record(5, 5, true, Some("."), root())).unwrap();
    mft.add_usnjrnl_records(
        file,
        vec![event_at(file, MftReference::new(777, 3), EPOCH_TICKS + 50_000_000, 0x200, "gone.tmp")],
    );
    let entry = mft.get(&file).unwrap();
    assert!(!entry.is_allocated());
    assert!(entry.filename_info().is_none());
    assert_eq!(entry.get_full_path(&mft), "/$OrphanFiles/gone.tmp");
    assert_eq!(
        lines_of(&mft, file, false),
        vec![
            "0|/$OrphanFiles/gone.tmp ($UsnJrnl filename=gone.tmp parent='/$OrphanFiles' reason=FILE_DELETE) (deleted)|9999-128-1|0|0|0|0|5|0|0|0"
        ]
    );
}

#[test]
fn journal_only_entry_below_a_known_directory() {
    let file = MftReference::new(9999, 1);
    let mut mft = PreprocessedMft::new();
    mft.add_entry(record(5, 5, true, Some("."), root())).unwrap();
    mft.add_entry(record(60, 2, true, Some("Temp"), root())).unwrap();
    mft.add_usnjrnl_records(
        file,
        vec![
            event_at(file, MftReference::new(60, 2), 200, 0x200, "late.tmp"),
            event_at(file, root(), 100, 0x100, "early.tmp"),
        ],
    );
    assert_eq!(
        lines_of(&mft, file, false),
        vec![
            "0|/Temp/late.tmp ($UsnJrnl filename=late.tmp reason=FILE_DELETE) (deleted)|9999-128-1|0|0|0|0|0|0|0|0",
            "0|/Temp/late.tmp ($UsnJrnl filename=early.tmp reason=FILE_CREATE) (deleted)|9999-128-1|0|0|0|0|0|0|0|0",
        ]
    );
}

#[test]
fn the_directory_of_an_event_found_one_generation_later() {
    let file = MftReference::new(50, 1);
    let mut mft = PreprocessedMft::new();
    mft.add_entry(record(5, 5, true, Some("."), root())).unwrap();
    mft.add_entry(record(60, 3, false, Some("Temp"), root())).unwrap();
    mft.add_entry(record(50, 1, false, Some("a.tmp"), MftReference::new(60, 2))).unwrap();
    mft.add_usnjrnl_records(file, vec![event_at(file, MftReference::new(60, 2), 0, 0x200, "a.tmp")]);
    assert_eq!(
        lines_of(&mft, file, false)[2],
        "0|/Temp/a.tmp ($UsnJrnl reason=FILE_DELETE) (deleted)|50-128-1|0|0|0|4096|0|0|0|0"
    );
}

#[test]
fn parent_notes() {
    let parent = MftReference::new(60, 2);
    let found = |reference: Option<MftReference>, is_allocated: bool| ParentInfo {
        full_path: "/p".to_owned(),
        is_allocated,
        reference,
    };
    assert_eq!(parent_annotation(&parent, &found(Some(parent), true)), "");
    assert_eq!(parent_annotation(&parent, &found(Some(parent), false)), "");
    assert_eq!(parent_annotation(&parent, &found(Some(MftReference::new(60, 3)), false)), "");
    assert_eq!(
        parent_annotation(&parent, &found(Some(MftReference::new(60, 3)), true)),
        " parent=60-3/60-2/'/p'"
    );
    assert_eq!(
        parent_annotation(&parent, &found(Some(MftReference::new(61, 2)), false)),
        " parent=61-2/60-2/'/p'"
    );
    assert_eq!(parent_annotation(&parent, &found(None, false)), " parent='/p'");
    let last = MftReference::new(60, 65535);
    assert_eq!(
        parent_annotation(&last, &found(Some(MftReference::new(60, 0)), false)),
        " parent=60-0/60-65535/'/p'"
    );
}

#[test]
fn an_event_before_1970_has_time_zero() {
    let file = MftReference::new(9999, 1);
    let mut mft = PreprocessedMft::new();
    mft.add_usnjrnl_records(file, vec![event_at(file, root(), EPOCH_TICKS - 36_000_000_000, 0x100, "old")]);
    let lines = lines_of(&mft, file, false);
    assert!(lines[0].ends_with("|0|0|0|0|0"), "{}", lines[0]);
}
