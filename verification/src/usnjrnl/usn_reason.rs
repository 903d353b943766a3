//! The reasons that a journal record gives for a change.

use vstd::prelude::*;
use vstd::string::*;
use crate::text::join_with;
use crate::text::lemma_join_with_push;

verus! {

/// The reasons of one journal record: a set of flags in one 32-bit word.
#[derive(Clone, Copy, Debug, PartialEq, Eq, Structural)]
pub struct UsnReason {
    value: u32,
}

/// One reason for a change, in the order in which reasons are written out.
#[allow(non_camel_case_types)]
#[derive(Clone, Copy, Debug, PartialEq, Eq, Structural)]
pub enum UsnReasonValue {
    /// A user has changed one or more file or directory attributes, or one or more time stamps.
    USN_REASON_BASIC_INFO_CHANGE,
    /// The file or directory is closed.
    USN_REASON_CLOSE,
    /// The compression state of the file or directory is changed.
    USN_REASON_COMPRESSION_CHANGE,
    /// The file or directory is extended.
    USN_REASON_DATA_EXTEND,
    /// The data in the file or directory is overwritten.
    USN_REASON_DATA_OVERWRITE,
    /// The file or directory is truncated.
    USN_REASON_DATA_TRUNCATION,
    /// The extended attributes of the file or directory are changed.
    USN_REASON_EA_CHANGE,
    /// The file or directory is encrypted or decrypted.
    USN_REASON_ENCRYPTION_CHANGE,
    /// The file or directory is created for the first time.
    USN_REASON_FILE_CREATE,
    /// The file or directory is deleted.
    USN_REASON_FILE_DELETE,
    /// A hard link is added to or removed from the file or directory.
    USN_REASON_HARD_LINK_CHANGE,
    /// The file or directory changes between being indexed by content and not.
    USN_REASON_INDEXABLE_CHANGE,
    /// The integrity state of the stream is changed.
    USN_REASON_INTEGRITY_CHANGE,
    /// A named data stream of the file is extended.
    USN_REASON_NAMED_DATA_EXTEND,
    /// The data in a named data stream of the file is overwritten.
    USN_REASON_NAMED_DATA_OVERWRITE,
    /// A named data stream of the file is truncated.
    USN_REASON_NAMED_DATA_TRUNCATION,
    /// The object identifier of the file or directory is changed.
    USN_REASON_OBJECT_ID_CHANGE,
    /// The file or directory is renamed, and the record holds the new name.
    USN_REASON_RENAME_NEW_NAME,
    /// The file or directory is renamed, and the record holds the previous name.
    USN_REASON_RENAME_OLD_NAME,
    /// The reparse point of the file or directory is changed, added or deleted.
    USN_REASON_REPARSE_POINT_CHANGE,
    /// The access rights to the file or directory are changed.
    USN_REASON_SECURITY_CHANGE,
    /// A named stream is added to, removed from or renamed in the file.
    USN_REASON_STREAM_CHANGE,
    /// The stream is modified through a transaction.
    USN_REASON_TRANSACTED_CHANGE,
}

/// The number of reasons that there are.
pub const REASON_COUNT: usize = 23;

/// The separator between the names of two reasons.
pub open spec fn reason_separator() -> Seq<char> {
    seq!['|']
}

/// Every reason, in the order in which reasons are written out.
pub open spec fn all_reasons() -> Seq<UsnReasonValue> {
    seq![
        UsnReasonValue::USN_REASON_BASIC_INFO_CHANGE,
        UsnReasonValue::USN_REASON_CLOSE,
        UsnReasonValue::USN_REASON_COMPRESSION_CHANGE,
        UsnReasonValue::USN_REASON_DATA_EXTEND,
        UsnReasonValue::USN_REASON_DATA_OVERWRITE,
        UsnReasonValue::USN_REASON_DATA_TRUNCATION,
        UsnReasonValue::USN_REASON_EA_CHANGE,
        UsnReasonValue::USN_REASON_ENCRYPTION_CHANGE,
        UsnReasonValue::USN_REASON_FILE_CREATE,
        UsnReasonValue::USN_REASON_FILE_DELETE,
        UsnReasonValue::USN_REASON_HARD_LINK_CHANGE,
        UsnReasonValue::USN_REASON_INDEXABLE_CHANGE,
        UsnReasonValue::USN_REASON_INTEGRITY_CHANGE,
        UsnReasonValue::USN_REASON_NAMED_DATA_EXTEND,
        UsnReasonValue::USN_REASON_NAMED_DATA_OVERWRITE,
        UsnReasonValue::USN_REASON_NAMED_DATA_TRUNCATION,
        UsnReasonValue::USN_REASON_OBJECT_ID_CHANGE,
        UsnReasonValue::USN_REASON_RENAME_NEW_NAME,
        UsnReasonValue::USN_REASON_RENAME_OLD_NAME,
        UsnReasonValue::USN_REASON_REPARSE_POINT_CHANGE,
        UsnReasonValue::USN_REASON_SECURITY_CHANGE,
        UsnReasonValue::USN_REASON_STREAM_CHANGE,
        UsnReasonValue::USN_REASON_TRANSACTED_CHANGE,
    ]
}

impl UsnReasonValue {
    /// The bit that stands for this reason.
    pub open spec fn spec_mask(self) -> u32 {
        match self {
            UsnReasonValue::USN_REASON_BASIC_INFO_CHANGE => 0x00008000,
            UsnReasonValue::USN_REASON_CLOSE => 0x80000000,
            UsnReasonValue::USN_REASON_COMPRESSION_CHANGE => 0x00020000,
            UsnReasonValue::USN_REASON_DATA_EXTEND => 0x00000002,
            UsnReasonValue::USN_REASON_DATA_OVERWRITE => 0x00000001,
            UsnReasonValue::USN_REASON_DATA_TRUNCATION => 0x00000004,
            UsnReasonValue::USN_REASON_EA_CHANGE => 0x00000400,
            UsnReasonValue::USN_REASON_ENCRYPTION_CHANGE => 0x00040000,
            UsnReasonValue::USN_REASON_FILE_CREATE => 0x00000100,
            UsnReasonValue::USN_REASON_FILE_DELETE => 0x00000200,
            UsnReasonValue::USN_REASON_HARD_LINK_CHANGE => 0x00010000,
            UsnReasonValue::USN_REASON_INDEXABLE_CHANGE => 0x00004000,
            UsnReasonValue::USN_REASON_INTEGRITY_CHANGE => 0x00800000,
            UsnReasonValue::USN_REASON_NAMED_DATA_EXTEND => 0x00000020,
            UsnReasonValue::USN_REASON_NAMED_DATA_OVERWRITE => 0x00000010,
            UsnReasonValue::USN_REASON_NAMED_DATA_TRUNCATION => 0x00000040,
            UsnReasonValue::USN_REASON_OBJECT_ID_CHANGE => 0x00080000,
            UsnReasonValue::USN_REASON_RENAME_NEW_NAME => 0x00002000,
            UsnReasonValue::USN_REASON_RENAME_OLD_NAME => 0x00001000,
            UsnReasonValue::USN_REASON_REPARSE_POINT_CHANGE => 0x00100000,
            UsnReasonValue::USN_REASON_SECURITY_CHANGE => 0x00000800,
            UsnReasonValue::USN_REASON_STREAM_CHANGE => 0x00200000,
            UsnReasonValue::USN_REASON_TRANSACTED_CHANGE => 0x00400000,
        }
    }

    #[verifier::when_used_as_spec(spec_mask)]
    pub fn mask(self) -> (m: u32)
        ensures
            m == self.spec_mask(),
    {
        match self {
            UsnReasonValue::USN_REASON_BASIC_INFO_CHANGE => 0x00008000,
            UsnReasonValue::USN_REASON_CLOSE => 0x80000000,
            UsnReasonValue::USN_REASON_COMPRESSION_CHANGE => 0x00020000,
            UsnReasonValue::USN_REASON_DATA_EXTEND => 0x00000002,
            UsnReasonValue::USN_REASON_DATA_OVERWRITE => 0x00000001,
            UsnReasonValue::USN_REASON_DATA_TRUNCATION => 0x00000004,
            UsnReasonValue::USN_REASON_EA_CHANGE => 0x00000400,
            UsnReasonValue::USN_REASON_ENCRYPTION_CHANGE => 0x00040000,
            UsnReasonValue::USN_REASON_FILE_CREATE => 0x00000100,
            UsnReasonValue::USN_REASON_FILE_DELETE => 0x00000200,
            UsnReasonValue::USN_REASON_HARD_LINK_CHANGE => 0x00010000,
            UsnReasonValue::USN_REASON_INDEXABLE_CHANGE => 0x00004000,
            UsnReasonValue::USN_REASON_INTEGRITY_CHANGE => 0x00800000,
            UsnReasonValue::USN_REASON_NAMED_DATA_EXTEND => 0x00000020,
            UsnReasonValue::USN_REASON_NAMED_DATA_OVERWRITE => 0x00000010,
            UsnReasonValue::USN_REASON_NAMED_DATA_TRUNCATION => 0x00000040,
            UsnReasonValue::USN_REASON_OBJECT_ID_CHANGE => 0x00080000,
            UsnReasonValue::USN_REASON_RENAME_NEW_NAME => 0x00002000,
            UsnReasonValue::USN_REASON_RENAME_OLD_NAME => 0x00001000,
            UsnReasonValue::USN_REASON_REPARSE_POINT_CHANGE => 0x00100000,
            UsnReasonValue::USN_REASON_SECURITY_CHANGE => 0x00000800,
            UsnReasonValue::USN_REASON_STREAM_CHANGE => 0x00200000,
            UsnReasonValue::USN_REASON_TRANSACTED_CHANGE => 0x00400000,
        }
    }

    /// The name of this reason without the prefix that all reasons share.
    pub open spec fn spec_short_name(self) -> Seq<char> {
        match self {
            UsnReasonValue::USN_REASON_BASIC_INFO_CHANGE => "BASIC_INFO_CHANGE"@,
            UsnReasonValue::USN_REASON_CLOSE => "CLOSE"@,
            UsnReasonValue::USN_REASON_COMPRESSION_CHANGE => "COMPRESSION_CHANGE"@,
            UsnReasonValue::USN_REASON_DATA_EXTEND => "DATA_EXTEND"@,
            UsnReasonValue::USN_REASON_DATA_OVERWRITE => "DATA_OVERWRITE"@,
            UsnReasonValue::USN_REASON_DATA_TRUNCATION => "DATA_TRUNCATION"@,
            UsnReasonValue::USN_REASON_EA_CHANGE => "EA_CHANGE"@,
            UsnReasonValue::USN_REASON_ENCRYPTION_CHANGE => "ENCRYPTION_CHANGE"@,
            UsnReasonValue::USN_REASON_FILE_CREATE => "FILE_CREATE"@,
            UsnReasonValue::USN_REASON_FILE_DELETE => "FILE_DELETE"@,
            UsnReasonValue::USN_REASON_HARD_LINK_CHANGE => "HARD_LINK_CHANGE"@,
            UsnReasonValue::USN_REASON_INDEXABLE_CHANGE => "INDEXABLE_CHANGE"@,
            UsnReasonValue::USN_REASON_INTEGRITY_CHANGE => "INTEGRITY_CHANGE"@,
            UsnReasonValue::USN_REASON_NAMED_DATA_EXTEND => "NAMED_DATA_EXTEND"@,
            UsnReasonValue::USN_REASON_NAMED_DATA_OVERWRITE => "NAMED_DATA_OVERWRITE"@,
            UsnReasonValue::USN_REASON_NAMED_DATA_TRUNCATION => "NAMED_DATA_TRUNCATION"@,
            UsnReasonValue::USN_REASON_OBJECT_ID_CHANGE => "OBJECT_ID_CHANGE"@,
            UsnReasonValue::USN_REASON_RENAME_NEW_NAME => "RENAME_NEW_NAME"@,
            UsnReasonValue::USN_REASON_RENAME_OLD_NAME => "RENAME_OLD_NAME"@,
            UsnReasonValue::USN_REASON_REPARSE_POINT_CHANGE => "REPARSE_POINT_CHANGE"@,
            UsnReasonValue::USN_REASON_SECURITY_CHANGE => "SECURITY_CHANGE"@,
            UsnReasonValue::USN_REASON_STREAM_CHANGE => "STREAM_CHANGE"@,
            UsnReasonValue::USN_REASON_TRANSACTED_CHANGE => "TRANSACTED_CHANGE"@,
        }
    }

    /// The full name of this reason.
    pub open spec fn spec_long_name(self) -> Seq<char> {
        match self {
            UsnReasonValue::USN_REASON_BASIC_INFO_CHANGE => "USN_REASON_BASIC_INFO_CHANGE"@,
            UsnReasonValue::USN_REASON_CLOSE => "USN_REASON_CLOSE"@,
            UsnReasonValue::USN_REASON_COMPRESSION_CHANGE => "USN_REASON_COMPRESSION_CHANGE"@,
            UsnReasonValue::USN_REASON_DATA_EXTEND => "USN_REASON_DATA_EXTEND"@,
            UsnReasonValue::USN_REASON_DATA_OVERWRITE => "USN_REASON_DATA_OVERWRITE"@,
            UsnReasonValue::USN_REASON_DATA_TRUNCATION => "USN_REASON_DATA_TRUNCATION"@,
            UsnReasonValue::USN_REASON_EA_CHANGE => "USN_REASON_EA_CHANGE"@,
            UsnReasonValue::USN_REASON_ENCRYPTION_CHANGE => "USN_REASON_ENCRYPTION_CHANGE"@,
            UsnReasonValue::USN_REASON_FILE_CREATE => "USN_REASON_FILE_CREATE"@,
            UsnReasonValue::USN_REASON_FILE_DELETE => "USN_REASON_FILE_DELETE"@,
            UsnReasonValue::USN_REASON_HARD_LINK_CHANGE => "USN_REASON_HARD_LINK_CHANGE"@,
            UsnReasonValue::USN_REASON_INDEXABLE_CHANGE => "USN_REASON_INDEXABLE_CHANGE"@,
            UsnReasonValue::USN_REASON_INTEGRITY_CHANGE => "USN_REASON_INTEGRITY_CHANGE"@,
            UsnReasonValue::USN_REASON_NAMED_DATA_EXTEND => "USN_REASON_NAMED_DATA_EXTEND"@,
            UsnReasonValue::USN_REASON_NAMED_DATA_OVERWRITE => "USN_REASON_NAMED_DATA_OVERWRITE"@,
            UsnReasonValue::USN_REASON_NAMED_DATA_TRUNCATION => "USN_REASON_NAMED_DATA_TRUNCATION"@,
            UsnReasonValue::USN_REASON_OBJECT_ID_CHANGE => "USN_REASON_OBJECT_ID_CHANGE"@,
            UsnReasonValue::USN_REASON_RENAME_NEW_NAME => "USN_REASON_RENAME_NEW_NAME"@,
            UsnReasonValue::USN_REASON_RENAME_OLD_NAME => "USN_REASON_RENAME_OLD_NAME"@,
            UsnReasonValue::USN_REASON_REPARSE_POINT_CHANGE => "USN_REASON_REPARSE_POINT_CHANGE"@,
            UsnReasonValue::USN_REASON_SECURITY_CHANGE => "USN_REASON_SECURITY_CHANGE"@,
            UsnReasonValue::USN_REASON_STREAM_CHANGE => "USN_REASON_STREAM_CHANGE"@,
            UsnReasonValue::USN_REASON_TRANSACTED_CHANGE => "USN_REASON_TRANSACTED_CHANGE"@,
        }
    }

    /// The name under which this reason is written out.
    pub open spec fn spec_name(self, long_name: bool) -> Seq<char> {
        if long_name {
            self.spec_long_name()
        } else {
            self.spec_short_name()
        }
    }

    pub fn short_name(self) -> (name: &'static str)
        ensures
            name@ == self.spec_short_name(),
    {
        match self {
            UsnReasonValue::USN_REASON_BASIC_INFO_CHANGE => "BASIC_INFO_CHANGE",
            UsnReasonValue::USN_REASON_CLOSE => "CLOSE",
            UsnReasonValue::USN_REASON_COMPRESSION_CHANGE => "COMPRESSION_CHANGE",
            UsnReasonValue::USN_REASON_DATA_EXTEND => "DATA_EXTEND",
            UsnReasonValue::USN_REASON_DATA_OVERWRITE => "DATA_OVERWRITE",
            UsnReasonValue::USN_REASON_DATA_TRUNCATION => "DATA_TRUNCATION",
            UsnReasonValue::USN_REASON_EA_CHANGE => "EA_CHANGE",
            UsnReasonValue::USN_REASON_ENCRYPTION_CHANGE => "ENCRYPTION_CHANGE",
            UsnReasonValue::USN_REASON_FILE_CREATE => "FILE_CREATE",
            UsnReasonValue::USN_REASON_FILE_DELETE => "FILE_DELETE",
            UsnReasonValue::USN_REASON_HARD_LINK_CHANGE => "HARD_LINK_CHANGE",
            UsnReasonValue::USN_REASON_INDEXABLE_CHANGE => "INDEXABLE_CHANGE",
            UsnReasonValue::USN_REASON_INTEGRITY_CHANGE => "INTEGRITY_CHANGE",
            UsnReasonValue::USN_REASON_NAMED_DATA_EXTEND => "NAMED_DATA_EXTEND",
            UsnReasonValue::USN_REASON_NAMED_DATA_OVERWRITE => "NAMED_DATA_OVERWRITE",
            UsnReasonValue::USN_REASON_NAMED_DATA_TRUNCATION => "NAMED_DATA_TRUNCATION",
            UsnReasonValue::USN_REASON_OBJECT_ID_CHANGE => "OBJECT_ID_CHANGE",
            UsnReasonValue::USN_REASON_RENAME_NEW_NAME => "RENAME_NEW_NAME",
            UsnReasonValue::USN_REASON_RENAME_OLD_NAME => "RENAME_OLD_NAME",
            UsnReasonValue::USN_REASON_REPARSE_POINT_CHANGE => "REPARSE_POINT_CHANGE",
            UsnReasonValue::USN_REASON_SECURITY_CHANGE => "SECURITY_CHANGE",
            UsnReasonValue::USN_REASON_STREAM_CHANGE => "STREAM_CHANGE",
            UsnReasonValue::USN_REASON_TRANSACTED_CHANGE => "TRANSACTED_CHANGE",
        }
    }

    pub fn long_name(self) -> (name: &'static str)
        ensures
            name@ == self.spec_long_name(),
    {
        match self {
            UsnReasonValue::USN_REASON_BASIC_INFO_CHANGE => "USN_REASON_BASIC_INFO_CHANGE",
            UsnReasonValue::USN_REASON_CLOSE => "USN_REASON_CLOSE",
            UsnReasonValue::USN_REASON_COMPRESSION_CHANGE => "USN_REASON_COMPRESSION_CHANGE",
            UsnReasonValue::USN_REASON_DATA_EXTEND => "USN_REASON_DATA_EXTEND",
            UsnReasonValue::USN_REASON_DATA_OVERWRITE => "USN_REASON_DATA_OVERWRITE",
            UsnReasonValue::USN_REASON_DATA_TRUNCATION => "USN_REASON_DATA_TRUNCATION",
            UsnReasonValue::USN_REASON_EA_CHANGE => "USN_REASON_EA_CHANGE",
            UsnReasonValue::USN_REASON_ENCRYPTION_CHANGE => "USN_REASON_ENCRYPTION_CHANGE",
            UsnReasonValue::USN_REASON_FILE_CREATE => "USN_REASON_FILE_CREATE",
            UsnReasonValue::USN_REASON_FILE_DELETE => "USN_REASON_FILE_DELETE",
            UsnReasonValue::USN_REASON_HARD_LINK_CHANGE => "USN_REASON_HARD_LINK_CHANGE",
            UsnReasonValue::USN_REASON_INDEXABLE_CHANGE => "USN_REASON_INDEXABLE_CHANGE",
            UsnReasonValue::USN_REASON_INTEGRITY_CHANGE => "USN_REASON_INTEGRITY_CHANGE",
            UsnReasonValue::USN_REASON_NAMED_DATA_EXTEND => "USN_REASON_NAMED_DATA_EXTEND",
            UsnReasonValue::USN_REASON_NAMED_DATA_OVERWRITE => "USN_REASON_NAMED_DATA_OVERWRITE",
            UsnReasonValue::USN_REASON_NAMED_DATA_TRUNCATION => "USN_REASON_NAMED_DATA_TRUNCATION",
            UsnReasonValue::USN_REASON_OBJECT_ID_CHANGE => "USN_REASON_OBJECT_ID_CHANGE",
            UsnReasonValue::USN_REASON_RENAME_NEW_NAME => "USN_REASON_RENAME_NEW_NAME",
            UsnReasonValue::USN_REASON_RENAME_OLD_NAME => "USN_REASON_RENAME_OLD_NAME",
            UsnReasonValue::USN_REASON_REPARSE_POINT_CHANGE => "USN_REASON_REPARSE_POINT_CHANGE",
            UsnReasonValue::USN_REASON_SECURITY_CHANGE => "USN_REASON_SECURITY_CHANGE",
            UsnReasonValue::USN_REASON_STREAM_CHANGE => "USN_REASON_STREAM_CHANGE",
            UsnReasonValue::USN_REASON_TRANSACTED_CHANGE => "USN_REASON_TRANSACTED_CHANGE",
        }
    }

    pub fn name(self, long_name: bool) -> (name: &'static str)
        ensures
            name@ == self.spec_name(long_name),
    {
        if long_name {
            self.long_name()
        } else {
            self.short_name()
        }
    }

    /// The reason at a place in the order in which reasons are written out.
    pub fn at(place: usize) -> (flag: UsnReasonValue)
        requires
            place < REASON_COUNT,
        ensures
            flag == all_reasons()[place as int],
    {
        if place == 0 {
            UsnReasonValue::USN_REASON_BASIC_INFO_CHANGE
        } else if place == 1 {
            UsnReasonValue::USN_REASON_CLOSE
        } else if place == 2 {
            UsnReasonValue::USN_REASON_COMPRESSION_CHANGE
        } else if place == 3 {
            UsnReasonValue::USN_REASON_DATA_EXTEND
        } else if place == 4 {
            UsnReasonValue::USN_REASON_DATA_OVERWRITE
        } else if place == 5 {
            UsnReasonValue::USN_REASON_DATA_TRUNCATION
        } else if place == 6 {
            UsnReasonValue::USN_REASON_EA_CHANGE
        } else if place == 7 {
            UsnReasonValue::USN_REASON_ENCRYPTION_CHANGE
        } else if place == 8 {
            UsnReasonValue::USN_REASON_FILE_CREATE
        } else if place == 9 {
            UsnReasonValue::USN_REASON_FILE_DELETE
        } else if place == 10 {
            UsnReasonValue::USN_REASON_HARD_LINK_CHANGE
        } else if place == 11 {
            UsnReasonValue::USN_REASON_INDEXABLE_CHANGE
        } else if place == 12 {
            UsnReasonValue::USN_REASON_INTEGRITY_CHANGE
        } else if place == 13 {
            UsnReasonValue::USN_REASON_NAMED_DATA_EXTEND
        } else if place == 14 {
            UsnReasonValue::USN_REASON_NAMED_DATA_OVERWRITE
        } else if place == 15 {
            UsnReasonValue::USN_REASON_NAMED_DATA_TRUNCATION
        } else if place == 16 {
            UsnReasonValue::USN_REASON_OBJECT_ID_CHANGE
        } else if place == 17 {
            UsnReasonValue::USN_REASON_RENAME_NEW_NAME
        } else if place == 18 {
            UsnReasonValue::USN_REASON_RENAME_OLD_NAME
        } else if place == 19 {
            UsnReasonValue::USN_REASON_REPARSE_POINT_CHANGE
        } else if place == 20 {
            UsnReasonValue::USN_REASON_SECURITY_CHANGE
        } else if place == 21 {
            UsnReasonValue::USN_REASON_STREAM_CHANGE
        } else {
            UsnReasonValue::USN_REASON_TRANSACTED_CHANGE
        }
    }
}

/// Whether the word `value` has the bit of `flag` set.
pub open spec fn has_reason(value: u32, flag: UsnReasonValue) -> bool {
    (value & flag.spec_mask()) != 0
}

/// The test that picks the reasons held in `value`.
pub open spec fn selected(value: u32) -> spec_fn(UsnReasonValue) -> bool {
    |flag: UsnReasonValue| has_reason(value, flag)
}

/// The naming of reasons, by full names or by short ones.
pub open spec fn named(long_names: bool) -> spec_fn(UsnReasonValue) -> Seq<char> {
    |flag: UsnReasonValue| flag.spec_name(long_names)
}

/// The names of the first `count` reasons that `value` holds.
pub open spec fn reason_names(value: u32, long_names: bool, count: int) -> Seq<Seq<char>> {
    all_reasons().take(count).filter(selected(value)).map_values(named(long_names))
}

/// The names of the reasons in `value`, in their order and with a bar
/// between each two.
pub open spec fn reason_text(value: u32, long_names: bool) -> Seq<char> {
    join_with(reason_names(value, long_names, all_reasons().len() as int), reason_separator())
}

/// The names of the reasons among the first `count + 1` are those among the
/// first `count`, and the name of the next reason if `value` holds it.
proof fn lemma_reason_names_step(value: u32, long_names: bool, count: int)
    requires
        0 <= count < all_reasons().len(),
    ensures
        reason_names(value, long_names, count + 1) == if has_reason(value, all_reasons()[count]) {
            reason_names(value, long_names, count).push(all_reasons()[count].spec_name(long_names))
        } else {
            reason_names(value, long_names, count)
        },
{
    let flag = all_reasons()[count];
    let before = all_reasons().take(count);
    assert(all_reasons().take(count + 1) =~= before.push(flag));
    before.lemma_filter_push(flag, selected(value));
    if has_reason(value, flag) {
        before.filter(selected(value)).lemma_push_map_commute(named(long_names), flag);
    }
}

impl UsnReason {
    pub closed spec fn spec_value(&self) -> u32 {
        self.value
    }

    pub fn from(value: u32) -> (reason: UsnReason)
        ensures
            reason.value() == value,
    {
        UsnReason { value }
    }

    #[verifier::when_used_as_spec(spec_value)]
    pub fn value(&self) -> (value: u32)
        ensures
            value == self.spec_value(),
    {
        self.value
    }

    pub fn has_flag(&self, flag: UsnReasonValue) -> (b: bool)
        ensures
            b == has_reason(self.value(), flag),
    {
        (self.value & flag.mask()) != 0
    }

    /// The names of the reasons held, in their order and with a bar between
    /// each two: the full names, or the names without their common prefix.
    pub fn text(&self, long_names: bool) -> (text: String)
        ensures
            text@ == reason_text(self.value(), long_names),
    {
        let mut text = String::new();
        let mut first = true;
        let mut place: usize = 0;
        proof {
            assert(all_reasons().take(0) =~= Seq::<UsnReasonValue>::empty());
            assert(reason_names(self.value(), long_names, 0) =~= Seq::<Seq<char>>::empty());
        }
        while place < REASON_COUNT
            invariant
                place <= REASON_COUNT,
                REASON_COUNT == all_reasons().len(),
                text@ == join_with(
                    reason_names(self.value(), long_names, place as int),
                    reason_separator(),
                ),
                first == (reason_names(self.value(), long_names, place as int).len() == 0),
            decreases REASON_COUNT - place,
        {
            let flag = UsnReasonValue::at(place);
            proof {
                lemma_reason_names_step(self.value(), long_names, place as int);
                lemma_join_with_push(
                    reason_names(self.value(), long_names, place as int),
                    flag.spec_name(long_names),
                    reason_separator(),
                );
            }
            if self.has_flag(flag) {
                if !first {
                    proof {
                        reveal_strlit("|");
                        assert("|"@ =~= reason_separator());
                    }
                    text.append("|");
                }
                text.append(flag.name(long_names));
                first = false;
            }
            place += 1;
        }
        text
    }
}

/// The full name of a reason is its short name behind the common prefix.
pub proof fn lemma_long_name_is_prefixed(flag: UsnReasonValue)
    ensures
        flag.spec_long_name() == "USN_REASON_"@ + flag.spec_short_name(),
{
    reveal_strlit("USN_REASON_");
    match flag {
        UsnReasonValue::USN_REASON_BASIC_INFO_CHANGE => {
            reveal_strlit("BASIC_INFO_CHANGE");
            reveal_strlit("USN_REASON_BASIC_INFO_CHANGE");
            assert("USN_REASON_BASIC_INFO_CHANGE"@ =~= "USN_REASON_"@ + "BASIC_INFO_CHANGE"@);
        },
        UsnReasonValue::USN_REASON_CLOSE => {
            reveal_strlit("CLOSE");
            reveal_strlit("USN_REASON_CLOSE");
            assert("USN_REASON_CLOSE"@ =~= "USN_REASON_"@ + "CLOSE"@);
        },
        UsnReasonValue::USN_REASON_COMPRESSION_CHANGE => {
            reveal_strlit("COMPRESSION_CHANGE");
            reveal_strlit("USN_REASON_COMPRESSION_CHANGE");
            assert("USN_REASON_COMPRESSION_CHANGE"@ =~= "USN_REASON_"@ + "COMPRESSION_CHANGE"@);
        },
        UsnReasonValue::USN_REASON_DATA_EXTEND => {
            reveal_strlit("DATA_EXTEND");
            reveal_strlit("USN_REASON_DATA_EXTEND");
            assert("USN_REASON_DATA_EXTEND"@ =~= "USN_REASON_"@ + "DATA_EXTEND"@);
        },
        UsnReasonValue::USN_REASON_DATA_OVERWRITE => {
            reveal_strlit("DATA_OVERWRITE");
            reveal_strlit("USN_REASON_DATA_OVERWRITE");
            assert("USN_REASON_DATA_OVERWRITE"@ =~= "USN_REASON_"@ + "DATA_OVERWRITE"@);
        },
        UsnReasonValue::USN_REASON_DATA_TRUNCATION => {
            reveal_strlit("DATA_TRUNCATION");
            reveal_strlit("USN_REASON_DATA_TRUNCATION");
            assert("USN_REASON_DATA_TRUNCATION"@ =~= "USN_REASON_"@ + "DATA_TRUNCATION"@);
        },
        UsnReasonValue::USN_REASON_EA_CHANGE => {
            reveal_strlit("EA_CHANGE");
            reveal_strlit("USN_REASON_EA_CHANGE");
            assert("USN_REASON_EA_CHANGE"@ =~= "USN_REASON_"@ + "EA_CHANGE"@);
        },
        UsnReasonValue::USN_REASON_ENCRYPTION_CHANGE => {
            reveal_strlit("ENCRYPTION_CHANGE");
            reveal_strlit("USN_REASON_ENCRYPTION_CHANGE");
            assert("USN_REASON_ENCRYPTION_CHANGE"@ =~= "USN_REASON_"@ + "ENCRYPTION_CHANGE"@);
        },
        UsnReasonValue::USN_REASON_FILE_CREATE => {
            reveal_strlit("FILE_CREATE");
            reveal_strlit("USN_REASON_FILE_CREATE");
            assert("USN_REASON_FILE_CREATE"@ =~= "USN_REASON_"@ + "FILE_CREATE"@);
        },
        UsnReasonValue::USN_REASON_FILE_DELETE => {
            reveal_strlit("FILE_DELETE");
            reveal_strlit("USN_REASON_FILE_DELETE");
            assert("USN_REASON_FILE_DELETE"@ =~= "USN_REASON_"@ + "FILE_DELETE"@);
        },
        UsnReasonValue::USN_REASON_HARD_LINK_CHANGE => {
            reveal_strlit("HARD_LINK_CHANGE");
            reveal_strlit("USN_REASON_HARD_LINK_CHANGE");
            assert("USN_REASON_HARD_LINK_CHANGE"@ =~= "USN_REASON_"@ + "HARD_LINK_CHANGE"@);
        },
        UsnReasonValue::USN_REASON_INDEXABLE_CHANGE => {
            reveal_strlit("INDEXABLE_CHANGE");
            reveal_strlit("USN_REASON_INDEXABLE_CHANGE");
            assert("USN_REASON_INDEXABLE_CHANGE"@ =~= "USN_REASON_"@ + "INDEXABLE_CHANGE"@);
        },
        UsnReasonValue::USN_REASON_INTEGRITY_CHANGE => {
            reveal_strlit("INTEGRITY_CHANGE");
            reveal_strlit("USN_REASON_INTEGRITY_CHANGE");
            assert("USN_REASON_INTEGRITY_CHANGE"@ =~= "USN_REASON_"@ + "INTEGRITY_CHANGE"@);
        },
        UsnReasonValue::USN_REASON_NAMED_DATA_EXTEND => {
            reveal_strlit("NAMED_DATA_EXTEND");
            reveal_strlit("USN_REASON_NAMED_DATA_EXTEND");
            assert("USN_REASON_NAMED_DATA_EXTEND"@ =~= "USN_REASON_"@ + "NAMED_DATA_EXTEND"@);
        },
        UsnReasonValue::USN_REASON_NAMED_DATA_OVERWRITE => {
            reveal_strlit("NAMED_DATA_OVERWRITE");
            reveal_strlit("USN_REASON_NAMED_DATA_OVERWRITE");
            assert("USN_REASON_NAMED_DATA_OVERWRITE"@ =~= "USN_REASON_"@ + "NAMED_DATA_OVERWRITE"@);
        },
        UsnReasonValue::USN_REASON_NAMED_DATA_TRUNCATION => {
            reveal_strlit("NAMED_DATA_TRUNCATION");
            reveal_strlit("USN_REASON_NAMED_DATA_TRUNCATION");
            assert("USN_REASON_NAMED_DATA_TRUNCATION"@ =~= "USN_REASON_"@ + "NAMED_DATA_TRUNCATION"@);
        },
        UsnReasonValue::USN_REASON_OBJECT_ID_CHANGE => {
            reveal_strlit("OBJECT_ID_CHANGE");
            reveal_strlit("USN_REASON_OBJECT_ID_CHANGE");
            assert("USN_REASON_OBJECT_ID_CHANGE"@ =~= "USN_REASON_"@ + "OBJECT_ID_CHANGE"@);
        },
        UsnReasonValue::USN_REASON_RENAME_NEW_NAME => {
            reveal_strlit("RENAME_NEW_NAME");
            reveal_strlit("USN_REASON_RENAME_NEW_NAME");
            assert("USN_REASON_RENAME_NEW_NAME"@ =~= "USN_REASON_"@ + "RENAME_NEW_NAME"@);
        },
        UsnReasonValue::USN_REASON_RENAME_OLD_NAME => {
            reveal_strlit("RENAME_OLD_NAME");
            reveal_strlit("USN_REASON_RENAME_OLD_NAME");
            assert("USN_REASON_RENAME_OLD_NAME"@ =~= "USN_REASON_"@ + "RENAME_OLD_NAME"@);
        },
        UsnReasonValue::USN_REASON_REPARSE_POINT_CHANGE => {
            reveal_strlit("REPARSE_POINT_CHANGE");
            reveal_strlit("USN_REASON_REPARSE_POINT_CHANGE");
            assert("USN_REASON_REPARSE_POINT_CHANGE"@ =~= "USN_REASON_"@ + "REPARSE_POINT_CHANGE"@);
        },
        UsnReasonValue::USN_REASON_SECURITY_CHANGE => {
            reveal_strlit("SECURITY_CHANGE");
            reveal_strlit("USN_REASON_SECURITY_CHANGE");
            assert("USN_REASON_SECURITY_CHANGE"@ =~= "USN_REASON_"@ + "SECURITY_CHANGE"@);
        },
        UsnReasonValue::USN_REASON_STREAM_CHANGE => {
            reveal_strlit("STREAM_CHANGE");
            reveal_strlit("USN_REASON_STREAM_CHANGE");
            assert("USN_REASON_STREAM_CHANGE"@ =~= "USN_REASON_"@ + "STREAM_CHANGE"@);
        },
        UsnReasonValue::USN_REASON_TRANSACTED_CHANGE => {
            reveal_strlit("TRANSACTED_CHANGE");
            reveal_strlit("USN_REASON_TRANSACTED_CHANGE");
            assert("USN_REASON_TRANSACTED_CHANGE"@ =~= "USN_REASON_"@ + "TRANSACTED_CHANGE"@);
        },
    }
}

} // verus!
