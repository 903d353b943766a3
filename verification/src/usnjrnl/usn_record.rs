//! Journal records and their decoding from the bytes of `$UsnJrnl:$J`.

use vstd::prelude::*;
use vstd::slice::*;
use vstd::string::*;
use crate::bytes::fits;
use crate::bytes::in_buffer;
use crate::bytes::le_i64_at;
use crate::bytes::le_u16_at;
use crate::bytes::le_u32_at;
use crate::bytes::le_u64_at;
use crate::bytes::read_i64;
use crate::bytes::read_u16;
use crate::bytes::read_u32;
use crate::bytes::read_u64;
use crate::filetime::FileTime;
use crate::reference::MftReference;
use crate::reference::packed_entry;
use crate::reference::packed_sequence;
use crate::text::decimal;
use crate::text::u64_to_string;
use crate::usnjrnl::usn_reader_error::UsnReaderError;
use crate::usnjrnl::usn_reason::UsnReason;

verus! {

/// The bytes of the header that all record versions share.
pub const COMMON_HEADER_SIZE: usize = 8;

/// The bytes of a version 2 record before its file name, header included.
pub const V2_FIXED_SIZE: usize = 60;

/// The bytes of one cluster: where records stop for want of room, the next
/// one begins on the next multiple of this.
pub const CLUSTER_SIZE: usize = 0x1000;

/// A record of the change journal.
#[allow(non_snake_case)]
#[derive(Debug)]
pub struct CommonUsnRecord {
    pub header: UsnRecordCommonHeader,
    pub data: UsnRecordData,
}

/// What a record holds, by its major version.
#[derive(Debug)]
pub enum UsnRecordData {
    V2(UsnRecordV2),
}

/// The header that records of all versions begin with.
#[allow(non_snake_case)]
#[derive(Clone, Copy, Debug, PartialEq, Eq, Structural)]
pub struct UsnRecordCommonHeader {
    /// The length of the whole record in bytes.
    pub RecordLength: u32,
    pub MajorVersion: u16,
    pub MinorVersion: u16,
}

/// The fields of a version 2 record as they lie in the buffer.
#[allow(non_snake_case)]
#[derive(Clone, Copy, Debug, PartialEq, Eq, Structural)]
pub struct BinaryUsnRecordV2 {
    pub FileReferenceNumber: u64,
    pub ParentFileReferenceNumber: u64,
    pub Usn: i64,
    pub TimeStamp: u64,
    pub Reason: u32,
    pub SourceInfo: u32,
    pub SecurityId: u32,
    pub FileAttributes: u32,
    /// The length of the file name in bytes.
    pub FileNameLength: u16,
    /// Where the file name begins, counted from the start of the record.
    pub FileNameOffset: u16,
}

/// A version 2 record.
#[allow(non_snake_case)]
#[derive(Debug)]
pub struct UsnRecordV2 {
    pub FileReferenceNumber: MftReference,
    pub ParentFileReferenceNumber: MftReference,
    pub Usn: i64,
    pub TimeStamp: FileTime,
    pub Reason: UsnReason,
    pub SourceInfo: u32,
    pub SecurityId: u32,
    pub FileAttributes: u32,
    pub FileName: String,
}

/// What `String::from_utf16_lossy` makes of a sequence of UTF-16 code units.
pub uninterp spec fn utf16_lossy(units: Seq<u16>) -> Seq<char>;

/// `String::from_utf16_lossy`: decodes UTF-16, with U+FFFD in place of what
/// is no valid UTF-16.
#[verifier::external_body]
fn decode_utf16_lossy(units: &Vec<u16>) -> (text: String)
    ensures
        text@ == utf16_lossy(units@),
{
    String::from_utf16_lossy(units.as_slice())
}

/// The common header that lies at `at`.
pub open spec fn header_at(data: Seq<u8>, at: int) -> UsnRecordCommonHeader {
    UsnRecordCommonHeader {
        RecordLength: le_u32_at(data, at) as u32,
        MajorVersion: le_u16_at(data, at + 4) as u16,
        MinorVersion: le_u16_at(data, at + 6) as u16,
    }
}

/// The fields of the version 2 record that begins at `at`.
pub open spec fn binary_v2_at(data: Seq<u8>, at: int) -> BinaryUsnRecordV2 {
    BinaryUsnRecordV2 {
        FileReferenceNumber: le_u64_at(data, at + 8) as u64,
        ParentFileReferenceNumber: le_u64_at(data, at + 16) as u64,
        Usn: le_i64_at(data, at + 24) as i64,
        TimeStamp: le_u64_at(data, at + 32) as u64,
        Reason: le_u32_at(data, at + 40) as u32,
        SourceInfo: le_u32_at(data, at + 44) as u32,
        SecurityId: le_u32_at(data, at + 48) as u32,
        FileAttributes: le_u32_at(data, at + 52) as u32,
        FileNameLength: le_u16_at(data, at + 56) as u16,
        FileNameOffset: le_u16_at(data, at + 58) as u16,
    }
}

/// The UTF-16 code units of `characters` characters that begin at `offset`.
pub open spec fn utf16_units(data: Seq<u8>, offset: int, characters: int) -> Seq<u16> {
    Seq::new(characters as nat, |i: int| le_u16_at(data, offset + 2 * i) as u16)
}

/// Whether the file name of the version 2 record at `at` lies inside `data`.
pub open spec fn name_in_buffer(data: Seq<u8>, at: int) -> bool {
    in_buffer(
        data.len() as int,
        at + binary_v2_at(data, at).FileNameOffset,
        2 * (binary_v2_at(data, at).FileNameLength / 2),
    )
}

/// The code units of the file name of the version 2 record at `at`.
pub open spec fn name_units_at(data: Seq<u8>, at: int) -> Seq<u16> {
    utf16_units(
        data,
        at + binary_v2_at(data, at).FileNameOffset,
        binary_v2_at(data, at).FileNameLength as int / 2,
    )
}

/// Whether a version 2 record can be read at `at`: its fixed fields and its
/// file name lie inside `data`.
pub open spec fn v2_readable(data: Seq<u8>, at: int) -> bool {
    in_buffer(data.len() as int, at, 60) && name_in_buffer(data, at)
}

/// Whether `record` is what the fields `fixed` and the file name `name` make.
pub open spec fn is_v2_of(record: UsnRecordV2, fixed: BinaryUsnRecordV2, name: Seq<char>) -> bool {
    &&& record.FileReferenceNumber.entry == packed_entry(fixed.FileReferenceNumber)
    &&& record.FileReferenceNumber.sequence == packed_sequence(fixed.FileReferenceNumber)
    &&& record.ParentFileReferenceNumber.entry == packed_entry(fixed.ParentFileReferenceNumber)
    &&& record.ParentFileReferenceNumber.sequence == packed_sequence(
        fixed.ParentFileReferenceNumber,
    )
    &&& record.Usn == fixed.Usn
    &&& record.TimeStamp.ticks == fixed.TimeStamp
    &&& record.Reason.value() == fixed.Reason
    &&& record.SourceInfo == fixed.SourceInfo
    &&& record.SecurityId == fixed.SecurityId
    &&& record.FileAttributes == fixed.FileAttributes
    &&& record.FileName@ == name
}

/// The start of the cluster after the one in which `at` lies.
pub open spec fn next_cluster(at: int) -> int {
    at + 0x1000 - at % 0x1000
}

/// Whether a header can be read at `at` and gives its record no length.
pub open spec fn is_gap(data: Seq<u8>, at: int) -> bool {
    in_buffer(data.len() as int, at, 8) && header_at(data, at).RecordLength == 0
}

/// Where the record begins that a reader standing at `at` reads: at `at`,
/// or in the next cluster where the header at `at` has no length.
pub open spec fn record_start(data: Seq<u8>, at: int) -> int {
    if is_gap(data, at) {
        next_cluster(at)
    } else {
        at
    }
}

/// Whether records end for a reader standing at `at`: no header can be
/// read where the record would begin, or the header there has no length.
pub open spec fn no_more_data(data: Seq<u8>, at: int) -> bool {
    !in_buffer(data.len() as int, record_start(data, at), 8) || header_at(
        data,
        record_start(data, at),
    ).RecordLength == 0
}

/// Why the version 2 record at `at` cannot be read: what the error of the
/// malformed record says.
pub open spec fn v2_fault(data: Seq<u8>, at: int) -> Seq<char> {
    if !in_buffer(data.len() as int, at, 60) {
        "the record is cut short"@
    } else {
        "the file name lies outside the data"@
    }
}

/// What the error says of a record whose major version is none of 2, 3
/// and 4.
pub open spec fn version_fault(version: u16) -> Seq<char> {
    "invalid value for MajorVersion: "@ + decimal(version as nat)
}

/// Whether `record` is what a reader standing at `at` reads.
///
/// Where the records have come to their end, that is the error that says
/// so. Else it goes by the major version of the header at the start of the
/// record: version 2 gives the record, or the error of a malformed record
/// where its fields or its name do not lie inside the data; versions 3 and
/// 4 give the error of an unsupported version; every other version gives
/// the error of a malformed record.
pub open spec fn reads_as(
    data: Seq<u8>,
    at: int,
    record: Result<CommonUsnRecord, UsnReaderError>,
) -> bool {
    if no_more_data(data, at) {
        record matches Err(UsnReaderError::NoMoreData)
    } else {
        let start = record_start(data, at);
        let header = header_at(data, start);
        if header.MajorVersion == 2 {
            if v2_readable(data, start) {
                record matches Ok(r) && r.header == header && (r.data matches UsnRecordData::V2(v2)
                    && is_v2_of(
                    v2,
                    binary_v2_at(data, start),
                    utf16_lossy(name_units_at(data, start)),
                ))
            } else {
                record matches Err(UsnReaderError::MalformedRecord(what)) && what@ == v2_fault(
                    data,
                    start,
                )
            }
        } else if header.MajorVersion == 3 || header.MajorVersion == 4 {
            record matches Err(UsnReaderError::UnsupportedJournalVersion(v)) && v
                == header.MajorVersion
        } else {
            record matches Err(UsnReaderError::MalformedRecord(what)) && what@ == version_fault(
                header.MajorVersion,
            )
        }
    }
}

/// Reads a FILETIME from the first eight bytes of `buffer`.
pub fn filetime_from_bytes(buffer: &[u8]) -> (time: Result<FileTime, UsnReaderError>)
    ensures
        buffer@.len() >= 8 ==> (time matches Ok(t) && t.ticks == le_u64_at(buffer@, 0)),
        buffer@.len() < 8 ==> (time matches Err(UsnReaderError::FailedToReadWindowsTime(bytes))
            && bytes@ == buffer@),
{
    match FileTime::from_le_bytes(buffer) {
        Some(t) => Ok(t),
        None => Err(UsnReaderError::FailedToReadWindowsTime(slice_to_vec(buffer))),
    }
}

/// Decodes `characters` UTF-16 characters that begin at `offset`.
fn utf16_from_slice(slice: &[u8], offset: usize, characters: usize) -> (text: String)
    requires
        in_buffer(slice@.len() as int, offset as int, 2 * characters),
    ensures
        text@ == utf16_lossy(utf16_units(slice@, offset as int, characters as int)),
{
    let mut name_chars: Vec<u16> = Vec::new();
    let len = slice.len();
    let mut read: usize = 0;
    while read < characters
        invariant
            read <= characters,
            len == slice@.len(),
            offset + 2 * characters <= len,
            name_chars@ == utf16_units(slice@, offset as int, read as int),
        decreases characters - read,
    {
        let unit = read_u16(slice, offset + 2 * read);
        name_chars.push(unit);
        read += 1;
        assert(name_chars@ =~= utf16_units(slice@, offset as int, read as int));
    }
    decode_utf16_lossy(&name_chars)
}

impl UsnRecordCommonHeader {
    /// Reads the header that lies at `at`, if eight bytes lie there.
    pub fn from_bytes(data: &[u8], at: usize) -> (header: Option<UsnRecordCommonHeader>)
        ensures
            header == if in_buffer(data@.len() as int, at as int, 8) {
                Some(header_at(data@, at as int))
            } else {
                None
            },
    {
        if !fits(data, at, COMMON_HEADER_SIZE) {
            return None;
        }
        Some(
            UsnRecordCommonHeader {
                RecordLength: read_u32(data, at),
                MajorVersion: read_u16(data, at + 4),
                MinorVersion: read_u16(data, at + 6),
            },
        )
    }
}

impl BinaryUsnRecordV2 {
    /// Reads the fixed fields of the version 2 record that begins at `at`,
    /// if they lie inside `data`.
    pub fn from_bytes(data: &[u8], at: usize) -> (fixed: Option<BinaryUsnRecordV2>)
        ensures
            fixed == if in_buffer(data@.len() as int, at as int, 60) {
                Some(binary_v2_at(data@, at as int))
            } else {
                None
            },
    {
        if !fits(data, at, V2_FIXED_SIZE) {
            return None;
        }
        Some(
            BinaryUsnRecordV2 {
                FileReferenceNumber: read_u64(data, at + 8),
                ParentFileReferenceNumber: read_u64(data, at + 16),
                Usn: read_i64(data, at + 24),
                TimeStamp: read_u64(data, at + 32),
                Reason: read_u32(data, at + 40),
                SourceInfo: read_u32(data, at + 44),
                SecurityId: read_u32(data, at + 48),
                FileAttributes: read_u32(data, at + 52),
                FileNameLength: read_u16(data, at + 56),
                FileNameOffset: read_u16(data, at + 58),
            },
        )
    }
}

impl UsnRecordV2 {
    /// Makes a record of its fixed fields and its decoded file name.
    pub fn from_fields(fixed: &BinaryUsnRecordV2, file_name: String) -> (record: UsnRecordV2)
        ensures
            is_v2_of(record, *fixed, file_name@),
    {
        UsnRecordV2 {
            FileReferenceNumber: MftReference::from_u64(fixed.FileReferenceNumber),
            ParentFileReferenceNumber: MftReference::from_u64(fixed.ParentFileReferenceNumber),
            Usn: fixed.Usn,
            TimeStamp: FileTime::new(fixed.TimeStamp),
            Reason: UsnReason::from(fixed.Reason),
            SourceInfo: fixed.SourceInfo,
            SecurityId: fixed.SecurityId,
            FileAttributes: fixed.FileAttributes,
            FileName: file_name,
        }
    }

    /// Reads the version 2 record that begins at `record_index`.
    ///
    /// The record is malformed where its fixed fields or its file name do
    /// not lie inside `data`.
    pub fn from(data: &[u8], record_index: usize) -> (record: Result<UsnRecordV2, UsnReaderError>)
        ensures
            v2_readable(data@, record_index as int) ==> (record matches Ok(r) && is_v2_of(
                r,
                binary_v2_at(data@, record_index as int),
                utf16_lossy(name_units_at(data@, record_index as int)),
            )),
            !v2_readable(data@, record_index as int) ==> (record matches Err(
                UsnReaderError::MalformedRecord(what),
            ) && what@ == v2_fault(data@, record_index as int)),
    {
        let fixed = match BinaryUsnRecordV2::from_bytes(data, record_index) {
            Some(fixed) => fixed,
            None => {
                return Err(
                    UsnReaderError::MalformedRecord(String::from_str("the record is cut short")),
                );
            },
        };
        let characters: usize = (fixed.FileNameLength / 2) as usize;
        let len = data.len();
        let name_at: usize = match record_index.checked_add(fixed.FileNameOffset as usize) {
            Some(name_at) if fits(data, name_at, 2 * characters) => name_at,
            _ => {
                return Err(
                    UsnReaderError::MalformedRecord(
                        String::from_str("the file name lies outside the data"),
                    ),
                );
            },
        };
        let filename = utf16_from_slice(data, name_at, characters);
        Ok(UsnRecordV2::from_fields(&fixed, filename))
    }
}

impl UsnRecordData {
    /// The time of the event.
    pub open spec fn spec_timestamp(&self) -> FileTime {
        match self {
            UsnRecordData::V2(data) => data.TimeStamp,
        }
    }

    /// The name of the file at the time of the event.
    pub open spec fn spec_filename(&self) -> Seq<char> {
        match self {
            UsnRecordData::V2(data) => data.FileName@,
        }
    }

    /// The file that the event is about.
    pub open spec fn spec_file_reference(&self) -> MftReference {
        match self {
            UsnRecordData::V2(data) => data.FileReferenceNumber,
        }
    }

    /// The directory that held the file at the time of the event.
    pub open spec fn spec_parent_reference(&self) -> MftReference {
        match self {
            UsnRecordData::V2(data) => data.ParentFileReferenceNumber,
        }
    }

    /// The reasons of the event.
    pub open spec fn spec_reason(&self) -> UsnReason {
        match self {
            UsnRecordData::V2(data) => data.Reason,
        }
    }

    #[verifier::when_used_as_spec(spec_timestamp)]
    pub fn timestamp(&self) -> (time: FileTime)
        ensures
            time == self.spec_timestamp(),
    {
        match self {
            UsnRecordData::V2(data) => data.TimeStamp,
        }
    }

    pub fn filename(&self) -> (name: &String)
        ensures
            name@ == self.spec_filename(),
    {
        match self {
            UsnRecordData::V2(data) => &data.FileName,
        }
    }

    #[verifier::when_used_as_spec(spec_file_reference)]
    pub fn file_reference(&self) -> (r: MftReference)
        ensures
            r == self.spec_file_reference(),
    {
        match self {
            UsnRecordData::V2(data) => data.FileReferenceNumber,
        }
    }

    #[verifier::when_used_as_spec(spec_parent_reference)]
    pub fn parent_reference(&self) -> (r: MftReference)
        ensures
            r == self.spec_parent_reference(),
    {
        match self {
            UsnRecordData::V2(data) => data.ParentFileReferenceNumber,
        }
    }

    #[verifier::when_used_as_spec(spec_reason)]
    pub fn reason(&self) -> (reason: UsnReason)
        ensures
            reason == self.spec_reason(),
    {
        match self {
            UsnRecordData::V2(data) => data.Reason,
        }
    }
}

impl CommonUsnRecord {
    /// Reads the record at which a reader stands.
    ///
    /// A header without length marks the rest of its cluster as empty: the
    /// reader moves to the start of the next cluster and reads there. Where
    /// no header can be read, or the header after such a move has no length
    /// either, the records have come to their end. Of the versions only 2 is
    /// read. The reader stays at the start of the record that it has read.
    pub fn from(data: &[u8], index: &mut usize) -> (record: Result<Self, UsnReaderError>)
        ensures
            *final(index) == if record_start(data@, *old(index) as int) <= usize::MAX {
                record_start(data@, *old(index) as int)
            } else {
                *old(index) as int
            },
            reads_as(data@, *old(index) as int, record),
    {
        let mut header = match UsnRecordCommonHeader::from_bytes(data, *index) {
            Some(header) => header,
            None => {
                return Err(UsnReaderError::NoMoreData);
            },
        };
        if header.RecordLength == 0 {
            let len = data.len();
            let to_next: usize = CLUSTER_SIZE - *index % CLUSTER_SIZE;
            match (*index).checked_add(to_next) {
                Some(next) => {
                    *index = next;
                },
                None => {
                    return Err(UsnReaderError::NoMoreData);
                },
            }
            header = match UsnRecordCommonHeader::from_bytes(data, *index) {
                Some(header) => header,
                None => {
                    return Err(UsnReaderError::NoMoreData);
                },
            };
            if header.RecordLength == 0 {
                return Err(UsnReaderError::NoMoreData);
            }
        }
        let usn_data = match header.MajorVersion {
            2 => match UsnRecordV2::from(data, *index) {
                Ok(v2) => UsnRecordData::V2(v2),
                Err(e) => {
                    return Err(e);
                },
            },
            3 => {
                return Err(UsnReaderError::UnsupportedJournalVersion(3));
            },
            4 => {
                return Err(UsnReaderError::UnsupportedJournalVersion(4));
            },
            version => {
                let mut what = String::from_str("invalid value for MajorVersion: ");
                let numeral = u64_to_string(version as u64);
                what.append(numeral.as_str());
                return Err(UsnReaderError::MalformedRecord(what));
            },
        };
        Ok(CommonUsnRecord { header, data: usn_data })
    }
}

} // verus!
