//! MFT records as the reconstruction reads them: the header fields and the
//! attributes of one record, as plain values.

use vstd::prelude::*;
use crate::filetime::FileTime;
use crate::reference::MftReference;

verus! {

/// The name space of a `$FILE_NAME` attribute.
#[derive(Clone, Copy, Debug, PartialEq, Eq, Structural)]
pub enum FileNamespace {
    POSIX,
    Win32,
    DOS,
    Win32AndDos,
}

impl FileNamespace {
    /// The place of a name space on the ladder by which one name is chosen:
    /// DOS below POSIX below Win32 below Win32AndDos.
    pub open spec fn rank(self) -> nat {
        match self {
            FileNamespace::DOS => 0,
            FileNamespace::POSIX => 1,
            FileNamespace::Win32 => 2,
            FileNamespace::Win32AndDos => 3,
        }
    }
}

/// The four times of a `$STANDARD_INFORMATION` attribute.
#[derive(Clone, Copy, Debug, PartialEq, Eq, Structural)]
pub struct StandardInfoAttr {
    pub created: FileTime,
    pub modified: FileTime,
    pub mft_modified: FileTime,
    pub accessed: FileTime,
}

/// What a `$FILE_NAME` attribute says of a file.
#[derive(Clone, Debug, PartialEq, Eq)]
pub struct FileNameAttr {
    pub parent: MftReference,
    pub created: FileTime,
    pub modified: FileTime,
    pub mft_modified: FileTime,
    pub accessed: FileTime,
    pub logical_size: u64,
    pub namespace: FileNamespace,
    pub name: String,
}

/// The part of an attribute's header that the reconstruction reads.
#[derive(Clone, Debug, PartialEq, Eq)]
pub struct MftAttributeHeader {
    /// The number that tells this attribute from the others of its record.
    pub instance: u16,
    /// Where the attribute's own name begins; absent for a nameless attribute.
    pub name_offset: Option<u16>,
    /// The attribute's own name; empty for a nameless attribute.
    pub name: String,
}

/// The kind of an attribute, with the content of the two kinds that carry
/// times and names.
#[derive(Clone, Debug, PartialEq, Eq)]
pub enum MftAttributeContent {
    StandardInformation(StandardInfoAttr),
    FileName(FileNameAttr),
    Data,
    IndexRoot,
    /// An attribute of any other type.
    Other,
}

/// One attribute of an MFT record.
#[derive(Clone, Debug, PartialEq, Eq)]
pub struct MftAttribute {
    pub header: MftAttributeHeader,
    pub data: MftAttributeContent,
}

/// The header fields of an MFT record.
#[derive(Clone, Copy, Debug, PartialEq, Eq, Structural)]
pub struct EntryHeader {
    pub record_number: u64,
    pub sequence: u16,
    /// The base record that this record extends; `(0, 0)` on a base record.
    pub base_reference: MftReference,
    pub used_entry_size: u32,
}

/// One MFT record.
#[derive(Clone, Debug, PartialEq, Eq)]
pub struct MftEntry {
    pub header: EntryHeader,
    pub allocated: bool,
    pub directory: bool,
    /// The attributes in the order in which the record holds them.
    pub attributes: Vec<MftAttribute>,
}

impl MftEntry {
    pub open spec fn spec_is_allocated(&self) -> bool {
        self.allocated
    }

    #[verifier::when_used_as_spec(spec_is_allocated)]
    pub fn is_allocated(&self) -> (b: bool)
        ensures
            b == self.allocated,
    {
        self.allocated
    }

    pub open spec fn spec_is_dir(&self) -> bool {
        self.directory
    }

    #[verifier::when_used_as_spec(spec_is_dir)]
    pub fn is_dir(&self) -> (b: bool)
        ensures
            b == self.directory,
    {
        self.directory
    }

    /// The reference under which this record itself is known.
    pub open spec fn spec_reference(&self) -> MftReference {
        MftReference { entry: self.header.record_number, sequence: self.header.sequence }
    }

    #[verifier::when_used_as_spec(spec_reference)]
    pub fn reference(&self) -> (r: MftReference)
        ensures
            r == self.spec_reference(),
    {
        MftReference::new(self.header.record_number, self.header.sequence)
    }

    /// Whether this is the base record of its file: its base reference is
    /// `(0, 0)`.
    pub open spec fn spec_is_base(&self) -> bool {
        self.header.base_reference.entry == 0 && self.header.base_reference.sequence == 0
    }

    #[verifier::when_used_as_spec(spec_is_base)]
    pub fn is_base(&self) -> (b: bool)
        ensures
            b == self.spec_is_base(),
    {
        self.header.base_reference.entry == 0 && self.header.base_reference.sequence == 0
    }
}

} // verus!
