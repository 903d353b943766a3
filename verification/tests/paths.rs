use mft2bodyfile::record::EntryHeader;
use mft2bodyfile::record::FileNameAttr;
use mft2bodyfile::record::FileNamespace;
use mft2bodyfile::record::MftAttribute;
use mft2bodyfile::record::MftAttributeContent;
use mft2bodyfile::record::MftAttributeHeader;
use mft2bodyfile::record::MftEntry;
use mft2bodyfile::FileTime;
use mft2bodyfile::MftReference;
use mft2bodyfile::ParentInfo;
use mft2bodyfile::PreprocessedMft;

fn named(number: u64, sequence: u16, allocated: bool, name: &str, parent: MftReference) -> MftEntry {
    MftEntry {
        header: EntryHeader {
            record_number: number,
            sequence,
            base_reference: MftReference::new(0, 0),
            used_entry_size: 100,
        },
        allocated,
        directory: true,
        attributes: vec![MftAttribute {
            header: MftAttributeHeader { instance: 1, name_offset: None, name: String::new() },
            data: MftAttributeContent::FileName(FileNameAttr {
                parent,
                created: FileTime::new(0),
                modified: FileTime::new(0),
                mft_modified: FileTime::new(0),
                accessed: FileTime::new(0),
                logical_size: 0,
                namespace: FileNamespace::Win32,
                name: name.to_owned(),
            }),
        }],
    }
}

fn nameless(number: u64, sequence: u16) -> MftEntry {
    MftEntry {
        header: EntryHeader {
            record_number: number,
            sequence,
            base_reference: MftReference::new(0, 0),
            used_entry_size: 100,
        },
        allocated: false,
        directory: false,
        attributes: vec![],
    }
}

fn volume(records: Vec<MftEntry>) -> PreprocessedMft {
    let mut mft = PreprocessedMft::new();
    for record in records {
        mft.add_entry(record).unwrap();
    }
    mft
}

fn root() -> MftReference {
    MftReference::new(5, 5)
}

#[test]
fn record_number_five_is_the_root() {
    let mft = volume(vec![named(5, 5, true, ".", root())]);
    let info = mft.get_full_path(&root());
    assert_eq!(
        info,
        ParentInfo { full_path: "/".to_owned(), is_allocated: true, reference: Some(root()) }
    );
    assert_eq!(mft.get(&root()).unwrap().get_full_path(&mft), "/");
}

#[test]
fn root_is_the_root_whatever_it_says() {
    let mft = volume(vec![
        named(5, 1, false, "strange", MftReference::new(77, 1)),
        nameless(5, 2),
    ]);
    assert_eq!(mft.get_full_path(&MftReference::new(5, 1)).full_path, "/");
    assert_eq!(mft.get_full_path(&MftReference::new(5, 2)).full_path, "/");
}

#[test]
fn files_stand_below_their_directories() {
    let mft = volume(vec![
        named(5, 5, true, ".", root()),
        named(30, 1, true, "Users", root()),
        named(31, 1, true, "Administrator", MftReference::new(30, 1)),
        named(32, 7, true, "NTUSER.DAT", MftReference::new(31, 1)),
    ]);
    assert_eq!(mft.get_full_path(&MftReference::new(30, 1)).full_path, "/Users");
    assert_eq!(mft.get_full_path(&MftReference::new(31, 1)).full_path, "/Users/Administrator");
    let info = mft.get_full_path(&MftReference::new(32, 7));
    assert_eq!(info.full_path, "/Users/Administrator/NTUSER.DAT");
    assert!(info.is_allocated);
    assert_eq!(info.reference, Some(MftReference::new(32, 7)));
}

#[test]
fn path_resolution_is_idempotent() {
    let mft = volume(vec![
        named(5, 5, true, ".", root()),
        named(30, 1, true, "Users", root()),
        named(31, 1, false, "gone", MftReference::new(30, 1)),
    ]);
    for reference in [
        root(),
        MftReference::new(30, 1),
        MftReference::new(31, 1),
        MftReference::new(31, 0),
        MftReference::new(99, 9),
    ] {
        assert_eq!(mft.get_full_path(&reference), mft.get_full_path(&reference));
    }
}

#[test]
fn a_missing_reference_names_the_orphans() {
    let mft = volume(vec![named(5, 5, true, ".", root())]);
    assert_eq!(
        mft.get_full_path(&MftReference::new(99, 1)),
        ParentInfo { full_path: "/$OrphanFiles".to_owned(), is_allocated: false, reference: None }
    );
}

#[test]
fn a_file_without_its_directory_is_an_orphan() {
    let mft = volume(vec![
        named(5, 5, true, ".", root()),
        named(40, 1, false, "lost.txt", MftReference::new(99, 1)),
    ]);
    assert_eq!(mft.get_full_path(&MftReference::new(40, 1)).full_path, "/$OrphanFiles/lost.txt");
}

#[test]
fn a_deleted_directory_is_found_one_generation_later() {
    let mft = volume(vec![
        named(5, 5, true, ".", root()),
        named(40, 4, false, "RECYCLER", root()),
        named(41, 2, false, "desktop.ini", MftReference::new(40, 3)),
    ]);
    let info = mft.get_full_path(&MftReference::new(40, 3));
    assert_eq!(
        info,
        ParentInfo {
            full_path: "/RECYCLER".to_owned(),
            is_allocated: false,
            reference: Some(MftReference::new(40, 4)),
        }
    );
    assert_eq!(mft.find(&MftReference::new(40, 3)), Some(MftReference::new(40, 4)));
    assert_eq!(mft.get_full_path(&MftReference::new(41, 2)).full_path, "/RECYCLER/desktop.ini");
}

#[test]
fn an_allocated_directory_of_the_next_generation_does_not_answer() {
    let mft = volume(vec![
        named(5, 5, true, ".", root()),
        named(40, 4, true, "reused", root()),
        named(41, 2, false, "desktop.ini", MftReference::new(40, 3)),
    ]);
    assert_eq!(mft.find(&MftReference::new(40, 3)), None);
    assert_eq!(mft.get_full_path(&MftReference::new(40, 3)).reference, None);
    assert_eq!(mft.get_full_path(&MftReference::new(41, 2)).full_path, "/$OrphanFiles/desktop.ini");
}

#[test]
fn only_the_next_generation_is_searched() {
    let mft = volume(vec![named(40, 5, false, "RECYCLER", root())]);
    assert_eq!(mft.find(&MftReference::new(40, 3)), None);
    assert_eq!(mft.find(&MftReference::new(40, 4)), Some(MftReference::new(40, 5)));
    assert_eq!(mft.find(&MftReference::new(40, 5)), Some(MftReference::new(40, 5)));
    assert_eq!(mft.find(&MftReference::new(40, 6)), None);
}

#[test]
fn the_last_generation_has_no_next_one() {
    let mft = volume(vec![named(40, 0, false, "wrapped", root())]);
    assert_eq!(mft.find(&MftReference::new(40, 65535)), None);
}

#[test]
fn an_entry_without_a_parent_is_its_own_path() {
    let mft = volume(vec![nameless(40, 2)]);
    assert_eq!(mft.get_full_path(&MftReference::new(40, 2)).full_path, "unnamed_40_2");
}

#[test]
fn a_file_below_a_nameless_directory() {
    let mft = volume(vec![nameless(40, 2), named(41, 1, true, "child", MftReference::new(40, 2))]);
    assert_eq!(mft.get_full_path(&MftReference::new(41, 1)).full_path, "unnamed_40_2/child");
}

#[test]
fn an_entry_that_names_itself_has_no_path() {
    let mft = volume(vec![named(40, 2, true, "self", MftReference::new(40, 2))]);
    assert_eq!(mft.try_get_full_path(&MftReference::new(40, 2)), None);
    assert_eq!(mft.get(&MftReference::new(40, 2)).unwrap().try_get_full_path(&mft), None);
    assert_eq!(mft.try_iter_entries(false), None);
}

#[test]
fn parents_in_a_circle_have_no_path() {
    let mft = volume(vec![
        named(5, 5, true, ".", root()),
        named(40, 1, true, "a", MftReference::new(41, 1)),
        named(41, 1, true, "b", MftReference::new(42, 1)),
        named(42, 1, true, "c", MftReference::new(40, 1)),
        named(43, 1, true, "below", MftReference::new(40, 1)),
        named(44, 1, true, "fine", root()),
    ]);
    for number in [40, 41, 42, 43] {
        assert_eq!(mft.try_get_full_path(&MftReference::new(number, 1)), None);
    }
    assert_eq!(mft.try_get_full_path(&MftReference::new(44, 1)).unwrap().full_path, "/fine");
}

#[test]
fn the_longest_walk_is_allowed() {
    let mut records = vec![named(5, 5, true, ".", root())];
    let mut expected = String::new();
    for i in 0..50u64 {
        let parent = if i == 0 { root() } else { MftReference::new(100 + i - 1, 1) };
        records.push(named(100 + i, 1, true, "d", parent));
        expected.push_str("/d");
    }
    records.reverse();
    let mft = volume(records);
    assert_eq!(mft.len(), 51);
    assert_eq!(mft.get_full_path(&MftReference::new(149, 1)).full_path, expected);
}

#[test]
fn path_within_counts_the_steps() {
    let mft = volume(vec![
        named(5, 5, true, ".", root()),
        named(30, 1, true, "Users", root()),
        named(31, 1, true, "Administrator", MftReference::new(30, 1)),
    ]);
    let entry = mft.get(&MftReference::new(31, 1)).unwrap();
    assert_eq!(mft.path_within(entry, 0), None);
    assert_eq!(mft.path_within(entry, 1), None);
    assert_eq!(mft.path_within(entry, 2), Some("/Users/Administrator".to_owned()));
    assert_eq!(mft.path_within(entry, 3), Some("/Users/Administrator".to_owned()));
}

#[test]
fn contains_and_references() {
    let mft = volume(vec![named(5, 5, true, ".", root()), named(30, 1, true, "Users", root())]);
    assert!(mft.contains(&root()));
    assert!(!mft.contains(&MftReference::new(5, 4)));
    let mut references = mft.references();
    references.sort_by_key(|r| r.entry);
    assert_eq!(references, vec![root(), MftReference::new(30, 1)]);
}

#[test]
fn kept_paths_are_the_paths() {
    let mut mft = volume(vec![
        named(5, 5, true, ".", root()),
        named(30, 1, true, "Users", root()),
        named(31, 1, true, "Administrator", MftReference::new(30, 1)),
        named(40, 1, true, "self", MftReference::new(40, 1)),
        named(41, 1, false, "lost", MftReference::new(99, 1)),
    ]);
    let references = [
        root(),
        MftReference::new(30, 1),
        MftReference::new(31, 1),
        MftReference::new(40, 1),
        MftReference::new(41, 1),
        MftReference::new(77, 7),
    ];
    let before: Vec<Option<ParentInfo>> =
        references.iter().map(|r| mft.try_get_full_path(r)).collect();
    mft.memoize_paths();
    let after: Vec<Option<ParentInfo>> =
        references.iter().map(|r| mft.try_get_full_path(r)).collect();
    assert_eq!(before, after);
    assert_eq!(after[2].as_ref().unwrap().full_path, "/Users/Administrator");
    assert_eq!(after[3], None);
    assert_eq!(after[4].as_ref().unwrap().full_path, "/$OrphanFiles/lost");
}

#[test]
fn kept_paths_are_forgotten_when_the_entries_change() {
    let mut mft = volume(vec![
        named(5, 5, true, ".", root()),
        named(31, 1, true, "Administrator", MftReference::new(30, 1)),
    ]);
    mft.memoize_paths();
    assert_eq!(
        mft.get_full_path(&MftReference::new(31, 1)).full_path,
        "/$OrphanFiles/Administrator"
    );
    mft.add_entry(named(30, 1, true, "Users", root())).unwrap();
    assert_eq!(mft.get_full_path(&MftReference::new(31, 1)).full_path, "/Users/Administrator");
    mft.memoize_paths();
    assert_eq!(mft.get_full_path(&MftReference::new(31, 1)).full_path, "/Users/Administrator");
    let lines = mft.iter_entries(false);
    assert_eq!(lines.len(), 3);
}
