//! One file as its records describe it.

use vstd::prelude::*;
use vstd::string::*;
use crate::intern::error::NtfsError;
use crate::intern::event_order::is_time_ordered;
use crate::intern::event_order::lemma_time_ordered_is_ordered;
use crate::intern::event_order::merge_events;
use crate::intern::event_order::sort_events;
use crate::intern::event_order::time_ordered;
use crate::intern::filename_info::FilenameInfo;
use crate::intern::filename_info::FilenameInfoView;
use crate::intern::filename_info::built;
use crate::intern::filename_info::updated;
use crate::intern::timestamp_tuple::TimestampTuple;
use crate::intern::timestamp_tuple::Timestamps;
use crate::intern::timestamp_tuple::clamped_times;
use crate::record::MftAttribute;
use crate::record::MftAttributeContent;
use crate::record::MftEntry;
use crate::reference::MftReference;
use crate::text::decimal;
use crate::text::u64_to_string;
use crate::usnjrnl::usn_record::CommonUsnRecord;

verus! {

/// Everything that the records of the MFT and the events of the journal
/// say of one file.
///
/// Of the `$FILE_NAME` attributes of a file one is kept: the one that wins
/// by its name space. Of `$STANDARD_INFORMATION` there is one at most. The
/// events of the journal are kept in ascending order of time.
#[derive(Debug)]
pub struct CompleteMftEntry {
    base_entry: MftReference,
    file_name_attribute: Option<FilenameInfo>,
    standard_info_timestamps: Option<TimestampTuple>,
    is_allocated: bool,
    usnjrnl_records: Vec<CommonUsnRecord>,
    data_attributes: Vec<DataAttribute>,
    indexroot_attributes: Vec<u16>,
    is_directory: bool,
}

/// A `$DATA` attribute: its own name, if it has one, and its instance.
#[derive(Clone, Debug, PartialEq, Eq)]
pub struct DataAttribute {
    name: Option<String>,
    instance: u16,
}

/// What a `DataAttribute` holds.
pub struct DataAttributeView {
    pub name: Option<Seq<char>>,
    pub instance: u16,
}

/// What a `CompleteMftEntry` holds.
pub struct EntryView {
    pub base_entry: MftReference,
    pub file_name: Option<FilenameInfoView>,
    pub standard_info: Option<Timestamps>,
    pub is_allocated: bool,
    pub is_directory: bool,
    pub data_streams: Seq<DataAttributeView>,
    pub index_roots: Seq<u16>,
    pub journal: Seq<CommonUsnRecord>,
}

impl View for DataAttribute {
    type V = DataAttributeView;

    closed spec fn view(&self) -> DataAttributeView {
        DataAttributeView {
            name: match self.name {
                Some(name) => Some(name@),
                None => None,
            },
            instance: self.instance,
        }
    }
}

impl DataAttribute {
    pub fn name(&self) -> (name: &Option<String>)
        ensures
            match name {
                Some(text) => self@.name == Some(text@),
                None => self@.name is None,
            },
    {
        &self.name
    }

    pub fn instance(&self) -> (instance: u16)
        ensures
            instance == self@.instance,
    {
        self.instance
    }
}

/// The attribute type that the inode of a file's line names: `$DATA`.
pub const DATA_ATTRIBUTE_ID: u32 = 128;

/// The attribute type that the inode of a directory's line names:
/// `$INDEX_ROOT`.
pub const INDEX_ROOT_ATTRIBUTE_ID: u32 = 144;

/// The name that stands for a file of which no record holds one.
pub open spec fn unnamed(r: MftReference) -> Seq<char> {
    "unnamed_"@ + decimal(r.entry as nat) + "_"@ + decimal(r.sequence as nat)
}

impl EntryView {
    /// The invariant of an entry: its times are valid and its events stand
    /// in ascending order of time.
    pub open spec fn valid(self) -> bool {
        &&& self.file_name matches Some(name) ==> name.valid()
        &&& self.standard_info matches Some(times) ==> times.valid()
        &&& is_time_ordered(self.journal)
    }

    /// An entry of which nothing but its reference and flags is known.
    pub open spec fn fresh(base_entry: MftReference, is_allocated: bool, is_directory: bool) -> Self {
        EntryView {
            base_entry,
            file_name: None,
            standard_info: None,
            is_allocated,
            is_directory,
            data_streams: Seq::empty(),
            index_roots: Seq::empty(),
            journal: Seq::empty(),
        }
    }

    /// Whether the scan of attributes has nothing more to find: the times
    /// of `$STANDARD_INFORMATION` are there and the name is final.
    pub open spec fn is_complete(self) -> bool {
        self.standard_info is Some && (self.file_name matches Some(name) && name.is_final())
    }

    /// The latest event of the journal.
    pub open spec fn last_event(self) -> Option<CommonUsnRecord> {
        if self.journal.len() > 0 {
            Some(self.journal.last())
        } else {
            None
        }
    }

    /// The name of the file: that of its `$FILE_NAME` attribute, else that
    /// of its latest event, else a made-up one.
    pub open spec fn own_name(self) -> Seq<char> {
        match self.file_name {
            Some(name) => name.filename,
            None => match self.last_event() {
                Some(event) => event.data.spec_filename(),
                None => unnamed(self.base_entry),
            },
        }
    }

    /// The directory of the file: that of its `$FILE_NAME` attribute, else
    /// that of its latest event.
    pub open spec fn parent_hint(self) -> Option<MftReference> {
        match self.file_name {
            Some(name) => Some(name.parent),
            None => match self.last_event() {
                Some(event) => Some(event.data.spec_parent_reference()),
                None => None,
            },
        }
    }

    /// The parent that the `$FILE_NAME` attribute names.
    pub open spec fn parent(self) -> Option<MftReference> {
        match self.file_name {
            Some(name) => Some(name.parent),
            None => None,
        }
    }

    /// The size of the file: that of its `$FILE_NAME` attribute, else 0.
    pub open spec fn filesize(self) -> u64 {
        match self.file_name {
            Some(name) => name.logical_size,
            None => 0,
        }
    }

    /// The mark behind the name of a file that is not allocated.
    pub open spec fn deletion_status(self) -> Seq<char> {
        if self.is_allocated {
            Seq::<char>::empty()
        } else {
            " (deleted)"@
        }
    }

    /// The attribute type in the inode of the file's lines.
    pub open spec fn attribute_id(self) -> u32 {
        if self.is_directory {
            144
        } else {
            128
        }
    }

    /// The number of lines that the entry gives.
    pub open spec fn line_count(self) -> nat {
        (if self.standard_info is Some {
            1nat
        } else {
            0nat
        }) + (if self.file_name is Some {
            1nat
        } else {
            0nat
        }) + self.journal.len()
    }

    /// Whether the entry is allocated and yet has no name: a contradiction.
    pub open spec fn lacks_file_name(self) -> bool {
        self.is_allocated && self.file_name is None
    }
}

/// What a `$DATA` attribute adds to the data streams.
pub open spec fn data_stream_of(attribute: MftAttribute) -> DataAttributeView {
    DataAttributeView {
        name: if attribute.header.name_offset is Some {
            Some(attribute.header.name@)
        } else {
            None
        },
        instance: attribute.header.instance,
    }
}

/// Whether the scan passes over an attribute: an attribute of another
/// type than the four that are read, or, where only names are looked for,
/// of another type than `$FILE_NAME`.
pub open spec fn is_passed_over(attribute: MftAttribute, names_only: bool) -> bool {
    match attribute.data {
        MftAttributeContent::FileName(_) => false,
        MftAttributeContent::Other => true,
        _ => names_only,
    }
}

/// Whether an attribute contradicts what is known: a second
/// `$STANDARD_INFORMATION`.
pub open spec fn contradicts(entry: EntryView, attribute: MftAttribute) -> bool {
    attribute.data is StandardInformation && entry.standard_info is Some
}

/// The entry with what one attribute says taken in.
pub open spec fn absorbed(entry: EntryView, attribute: MftAttribute) -> EntryView {
    match attribute.data {
        MftAttributeContent::IndexRoot => EntryView {
            index_roots: entry.index_roots.push(attribute.header.instance),
            ..entry
        },
        MftAttributeContent::Data => EntryView {
            data_streams: entry.data_streams.push(data_stream_of(attribute)),
            ..entry
        },
        MftAttributeContent::StandardInformation(info) => EntryView {
            standard_info: Some(
                clamped_times(info.accessed, info.mft_modified, info.modified, info.created),
            ),
            ..entry
        },
        MftAttributeContent::FileName(name) => EntryView {
            file_name: Some(
                match entry.file_name {
                    None => built(name, attribute.header),
                    Some(current) => updated(current, name, attribute.header),
                },
            ),
            ..entry
        },
        MftAttributeContent::Other => entry,
    }
}

/// How far a scan came.
pub struct Scan {
    /// The entry with the attributes taken in that the scan came to.
    pub entry: EntryView,
    /// Whether the scan stopped at a contradiction.
    pub failed: bool,
}

/// The scan of the attributes of one record, from the first to the last.
///
/// Once the entry is complete, what follows is left out. A contradiction
/// stops the scan: the attributes before it have been taken in.
pub open spec fn scanned(entry: EntryView, attributes: Seq<MftAttribute>, names_only: bool) -> Scan
    decreases attributes.len(),
{
    if attributes.len() == 0 {
        Scan { entry, failed: false }
    } else {
        let before = scanned(entry, attributes.drop_last(), names_only);
        let attribute = attributes.last();
        if before.failed || before.entry.is_complete() || is_passed_over(attribute, names_only) {
            before
        } else if contradicts(before.entry, attribute) {
            Scan { entry: before.entry, failed: true }
        } else {
            Scan { entry: absorbed(before.entry, attribute), failed: false }
        }
    }
}

/// The view of a data stream.
pub open spec fn stream_view() -> spec_fn(DataAttribute) -> DataAttributeView {
    |stream: DataAttribute| stream@
}

impl View for CompleteMftEntry {
    type V = EntryView;

    closed spec fn view(&self) -> EntryView {
        EntryView {
            base_entry: self.base_entry,
            file_name: match self.file_name_attribute {
                Some(name) => Some(name@),
                None => None,
            },
            standard_info: match self.standard_info_timestamps {
                Some(times) => Some(times@),
                None => None,
            },
            is_allocated: self.is_allocated,
            is_directory: self.is_directory,
            data_streams: self.data_attributes@.map_values(stream_view()),
            index_roots: self.indexroot_attributes@,
            journal: self.usnjrnl_records@,
        }
    }
}

impl CompleteMftEntry {
    /// The invariant of the type.
    pub open spec fn wf(&self) -> bool {
        self@.valid()
    }

    fn empty(base_entry: MftReference, is_allocated: bool, is_directory: bool) -> (entry: Self)
        ensures
            entry.wf(),
            entry@ == EntryView::fresh(base_entry, is_allocated, is_directory),
    {
        let entry = CompleteMftEntry {
            base_entry,
            file_name_attribute: None,
            standard_info_timestamps: None,
            is_allocated,
            usnjrnl_records: Vec::new(),
            data_attributes: Vec::new(),
            indexroot_attributes: Vec::new(),
            is_directory,
        };
        assert(entry@.data_streams =~= Seq::<DataAttributeView>::empty());
        entry
    }

    /// The entry of a file of which the base record is the first record
    /// seen. The record's attributes are scanned; the record is refused
    /// where it holds `$STANDARD_INFORMATION` twice.
    pub fn from_base_entry(entry_reference: MftReference, entry: MftEntry) -> (made: Result<
        Self,
        NtfsError,
    >)
        ensures
            ({
                let scan = scanned(
                    EntryView::fresh(entry_reference, entry.allocated, entry.directory),
                    entry.attributes@,
                    false,
                );
                match made {
                    Ok(c) => !scan.failed && c@ == scan.entry && c.wf(),
                    Err(e) => scan.failed && e == NtfsError::MultipleStandardInfo(entry_reference),
                }
            }),
    {
        let mut c = Self::empty(entry_reference, entry.is_allocated(), entry.is_dir());
        match c.update_attributes(&entry, false) {
            Ok(()) => Ok(c),
            Err(e) => Err(e),
        }
    }

    /// The entry of a file of which a record other than the base record is
    /// the first record seen. The entry is known under the base reference
    /// that the record names, and is not allocated until the base record
    /// says so. Of the record's attributes only the names are read.
    pub fn from_nonbase_entry(_entry_ref: MftReference, entry: MftEntry) -> (c: Self)
        ensures
            c.wf(),
            c@ == scanned(
                EntryView::fresh(entry.header.base_reference, false, false),
                entry.attributes@,
                true,
            ).entry,
    {
        let mut c = Self::empty(entry.header.base_reference, false, false);
        proof {
            lemma_scan_of_names_never_fails(c@, entry.attributes@);
        }
        let _ = c.update_attributes(&entry, true);
        c
    }

    /// The entry of a file that only the journal knows of.
    pub fn from_usnjrnl_records(entry_ref: MftReference, records: Vec<CommonUsnRecord>) -> (c: Self)
        ensures
            c.wf(),
            c@ == (EntryView {
                journal: time_ordered(records@),
                ..EntryView::fresh(entry_ref, false, false)
            }),
    {
        let mut c = Self::empty(entry_ref, false, false);
        proof {
            lemma_time_ordered_is_ordered(records@);
        }
        c.usnjrnl_records = sort_events(records);
        c
    }

    pub fn base_entry(&self) -> (r: &MftReference)
        ensures
            *r == self@.base_entry,
    {
        &self.base_entry
    }

    pub fn is_allocated(&self) -> (b: bool)
        ensures
            b == self@.is_allocated,
    {
        self.is_allocated
    }

    pub fn is_directory(&self) -> (b: bool)
        ensures
            b == self@.is_directory,
    {
        self.is_directory
    }

    /// Takes in the base record of a file whose entry was made of another
    /// record before.
    ///
    /// The record is refused, and nothing changes, where `entry_ref` is not
    /// the base reference of this entry. Else the record's attributes are
    /// scanned; where the scan meets a second `$STANDARD_INFORMATION` it
    /// stops there, with the attributes before it taken in and the flags
    /// as they were. Else the flags become those of the record.
    pub fn set_base_entry(&mut self, entry_ref: MftReference, entry: MftEntry) -> (done: Result<
        (),
        NtfsError,
    >)
        requires
            old(self).wf(),
        ensures
            final(self).wf(),
            entry_ref != old(self)@.base_entry ==> done == Err::<(), NtfsError>(
                NtfsError::InconsistentBaseReference(entry_ref),
            ) && final(self)@ == old(self)@,
            entry_ref == old(self)@.base_entry ==> ({
                let scan = scanned(old(self)@, entry.attributes@, false);
                if scan.failed {
                    done == Err::<(), NtfsError>(NtfsError::MultipleStandardInfo(entry_ref))
                        && final(self)@ == scan.entry
                } else {
                    done is Ok && final(self)@ == (EntryView {
                        is_allocated: entry.allocated,
                        is_directory: entry.directory,
                        ..scan.entry
                    })
                }
            }),
    {
        if entry_ref != self.base_entry {
            return Err(NtfsError::InconsistentBaseReference(entry_ref));
        }
        proof {
            lemma_scan_keeps_identity(self@, entry.attributes@, false);
        }
        match self.update_attributes(&entry, false) {
            Ok(()) => {
                self.is_allocated = entry.is_allocated();
                self.is_directory = entry.is_dir();
                Ok(())
            },
            Err(e) => Err(e),
        }
    }

    /// Takes in a record that extends the base record of this file: of its
    /// attributes the names are read.
    ///
    /// The record is refused, and nothing changes, where the base reference
    /// that it names is not that of this entry.
    pub fn add_nonbase_entry(&mut self, e: MftEntry) -> (done: Result<(), NtfsError>)
        requires
            old(self).wf(),
        ensures
            final(self).wf(),
            e.header.base_reference != old(self)@.base_entry ==> done == Err::<(), NtfsError>(
                NtfsError::InconsistentBaseReference(e.header.base_reference),
            ) && final(self)@ == old(self)@,
            e.header.base_reference == old(self)@.base_entry ==> done is Ok && final(self)@
                == scanned(old(self)@, e.attributes@, true).entry,
    {
        if e.header.base_reference != self.base_entry {
            return Err(NtfsError::InconsistentBaseReference(e.header.base_reference));
        }
        proof {
            lemma_scan_of_names_never_fails(self@, e.attributes@);
        }
        let _ = self.update_attributes(&e, true);
        Ok(())
    }

    /// Takes in further events of the journal: they are brought into the
    /// order of the events that are there.
    pub fn add_usnjrnl_records(&mut self, records: Vec<CommonUsnRecord>)
        requires
            old(self).wf(),
        ensures
            final(self).wf(),
            final(self)@ == (EntryView {
                journal: time_ordered(old(self)@.journal + records@),
                ..old(self)@
            }),
    {
        proof {
            lemma_time_ordered_is_ordered(self@.journal + records@);
        }
        merge_events(&mut self.usnjrnl_records, records);
    }

    /// Scans the attributes of a record.
    fn update_attributes(&mut self, entry: &MftEntry, names_only: bool) -> (done: Result<
        (),
        NtfsError,
    >)
        requires
            old(self).wf(),
        ensures
            final(self).wf(),
            final(self)@ == scanned(old(self)@, entry.attributes@, names_only).entry,
            done is Err <==> scanned(old(self)@, entry.attributes@, names_only).failed,
            done matches Err(e) ==> e == NtfsError::MultipleStandardInfo(old(self)@.base_entry),
    {
        let mut at: usize = 0;
        proof {
            assert(entry.attributes@.take(0) =~= Seq::<MftAttribute>::empty());
        }
        while at < entry.attributes.len()
            invariant
                at <= entry.attributes@.len(),
                self.wf(),
                self@.base_entry == old(self)@.base_entry,
                self@ == scanned(old(self)@, entry.attributes@.take(at as int), names_only).entry,
                !scanned(old(self)@, entry.attributes@.take(at as int), names_only).failed,
            decreases entry.attributes@.len() - at,
        {
            if self.is_complete() {
                // nothing is left to find
                proof {
                    lemma_scan_stops_when_complete(
                        old(self)@,
                        entry.attributes@,
                        names_only,
                        at as int,
                    );
                }
                return Ok(());
            }
            let attribute = &entry.attributes[at];
            proof {
                assert(entry.attributes@.take(at + 1).drop_last() =~= entry.attributes@.take(
                    at as int,
                ));
                assert(entry.attributes@.take(at + 1).last() == *attribute);
            }
            match &attribute.data {
                MftAttributeContent::IndexRoot => {
                    if !names_only {
                        self.indexroot_attributes.push(attribute.header.instance);
                    }
                },
                MftAttributeContent::Data => {
                    if !names_only {
                        let stream = DataAttribute {
                            name: match attribute.header.name_offset {
                                Some(_) => Some(attribute.header.name.clone()),
                                None => None,
                            },
                            instance: attribute.header.instance,
                        };
                        proof {
                            self.data_attributes@.lemma_push_map_commute(stream_view(), stream);
                        }
                        self.data_attributes.push(stream);
                    }
                },
                MftAttributeContent::StandardInformation(info) => {
                    if !names_only {
                        if self.standard_info_timestamps.is_none() {
                            self.standard_info_timestamps = Some(
                                TimestampTuple::from_standard_info(info),
                            );
                        } else {
                            proof {
                                lemma_scan_stops_at_failure(
                                    old(self)@,
                                    entry.attributes@,
                                    names_only,
                                    at as int + 1,
                                );
                            }
                            return Err(NtfsError::MultipleStandardInfo(self.base_entry));
                        }
                    }
                },
                MftAttributeContent::FileName(name) => {
                    match self.file_name_attribute {
                        None => {
                            self.file_name_attribute = Some(
                                FilenameInfo::from(name, &attribute.header),
                            );
                        },
                        Some(ref mut current) => {
                            current.update(name, &attribute.header);
                        },
                    }
                },
                MftAttributeContent::Other => {},
            }
            at += 1;
        }
        proof {
            assert(entry.attributes@.take(at as int) =~= entry.attributes@);
        }
        Ok(())
    }

    fn is_complete(&self) -> (b: bool)
        ensures
            b == self@.is_complete(),
    {
        self.standard_info_timestamps.is_some() && match &self.file_name_attribute {
            Some(name) => name.is_final(),
            None => false,
        }
    }

    /// The parent that the `$FILE_NAME` attribute names.
    pub fn parent(&self) -> (p: Option<&MftReference>)
        ensures
            match p {
                Some(r) => self@.parent() == Some(*r),
                None => self@.parent() is None,
            },
    {
        match self.file_name_attribute {
            None => None,
            Some(ref fn_attr) => Some(fn_attr.parent()),
        }
    }

    /// The name of the file in the latest event of the journal.
    fn filename_from_usnjrnl(&self) -> (name: Option<&String>)
        ensures
            match name {
                Some(text) => self@.last_event() matches Some(event) && text@
                    == event.data.spec_filename(),
                None => self@.last_event() is None,
            },
    {
        let n = self.usnjrnl_records.len();
        if n > 0 {
            Some(self.usnjrnl_records[n - 1].data.filename())
        } else {
            None
        }
    }

    /// The directory of the file in the latest event of the journal.
    fn parent_from_usnjrnl(&self) -> (parent: Option<MftReference>)
        ensures
            parent == match self@.last_event() {
                Some(event) => Some(event.data.spec_parent_reference()),
                None => None,
            },
    {
        let n = self.usnjrnl_records.len();
        if n > 0 {
            Some(self.usnjrnl_records[n - 1].data.parent_reference())
        } else {
            None
        }
    }

    /// The name of the file: that of its `$FILE_NAME` attribute, else that
    /// of its latest event, else a made-up one.
    pub fn own_name(&self) -> (name: String)
        ensures
            name@ == self@.own_name(),
    {
        match &self.file_name_attribute {
            Some(info) => info.filename().clone(),
            None => match self.filename_from_usnjrnl() {
                Some(name) => name.clone(),
                None => {
                    let mut name = String::from_str("unnamed_");
                    let entry = u64_to_string(self.base_entry.entry);
                    name.append(entry.as_str());
                    name.append("_");
                    let sequence = u64_to_string(self.base_entry.sequence as u64);
                    name.append(sequence.as_str());
                    name
                },
            },
        }
    }

    /// The directory of the file: that of its `$FILE_NAME` attribute, else
    /// that of its latest event.
    pub fn parent_hint(&self) -> (parent: Option<MftReference>)
        ensures
            parent == self@.parent_hint(),
    {
        match &self.file_name_attribute {
            Some(info) => Some(*info.parent()),
            None => self.parent_from_usnjrnl(),
        }
    }

    /// The size of the file: that of its `$FILE_NAME` attribute, else 0.
    pub fn filesize(&self) -> (size: u64)
        ensures
            size == self@.filesize(),
    {
        match self.file_name_attribute {
            Some(ref fn_attr) => fn_attr.logical_size(),
            None => 0,
        }
    }

    /// The `$FILE_NAME` attribute that names the file, if there is one.
    pub fn filename_info(&self) -> (info: &Option<FilenameInfo>)
        ensures
            match info {
                Some(name) => self@.file_name == Some(name@),
                None => self@.file_name is None,
            },
    {
        &self.file_name_attribute
    }

    /// The times of `$STANDARD_INFORMATION`, if a record held them.
    pub fn standard_info_timestamps(&self) -> (times: &Option<TimestampTuple>)
        ensures
            match times {
                Some(t) => self@.standard_info == Some(t@),
                None => self@.standard_info is None,
            },
    {
        &self.standard_info_timestamps
    }

    /// The events of the journal, in ascending order of time.
    pub fn usnjrnl_records(&self) -> (events: &Vec<CommonUsnRecord>)
        requires
            self.wf(),
        ensures
            events@ == self@.journal,
            is_time_ordered(events@),
    {
        &self.usnjrnl_records
    }

    /// The `$DATA` attributes seen, in the order in which they were seen.
    pub fn data_streams(&self) -> (streams: &Vec<DataAttribute>)
        ensures
            streams@.map_values(stream_view()) == self@.data_streams,
    {
        &self.data_attributes
    }

    /// The instances of the `$INDEX_ROOT` attributes seen, in the order in
    /// which they were seen.
    pub fn index_root_instances(&self) -> (instances: &Vec<u16>)
        ensures
            instances@ == self@.index_roots,
    {
        &self.indexroot_attributes
    }

    /// The contradiction of an allocated file without a name, if this entry
    /// shows it.
    pub fn check_file_name(&self) -> (checked: Result<(), NtfsError>)
        ensures
            self@.lacks_file_name() ==> checked == Err::<(), NtfsError>(
                NtfsError::MissingFileNameForAllocated(self@.base_entry),
            ),
            !self@.lacks_file_name() ==> checked is Ok,
    {
        if self.file_name_attribute.is_none() && self.is_allocated {
            Err(NtfsError::MissingFileNameForAllocated(self.base_entry))
        } else {
            Ok(())
        }
    }

    /// The number of lines that the entry gives, or the greatest number
    /// that the machine can count where they are more.
    pub fn bodyfile_lines_count(&self) -> (count: usize)
        ensures
            count == if self@.line_count() <= usize::MAX {
                self@.line_count()
            } else {
                usize::MAX as nat
            },
    {
        let of_attributes: usize = (match &self.standard_info_timestamps {
            Some(_) => 1,
            None => 0,
        }) + (match &self.file_name_attribute {
            Some(_) => 1,
            None => 0,
        });
        of_attributes.saturating_add(self.usnjrnl_records.len())
    }
}

/// A scan never touches the reference, the flags or the events of an entry.
pub proof fn lemma_scan_keeps_identity(
    entry: EntryView,
    attributes: Seq<MftAttribute>,
    names_only: bool,
)
    ensures
        scanned(entry, attributes, names_only).entry.base_entry == entry.base_entry,
        scanned(entry, attributes, names_only).entry.is_allocated == entry.is_allocated,
        scanned(entry, attributes, names_only).entry.is_directory == entry.is_directory,
        scanned(entry, attributes, names_only).entry.journal == entry.journal,
    decreases attributes.len(),
{
    if attributes.len() > 0 {
        lemma_scan_keeps_identity(entry, attributes.drop_last(), names_only);
    }
}

/// A scan leaves a valid entry valid.
pub proof fn lemma_scan_keeps_valid(
    entry: EntryView,
    attributes: Seq<MftAttribute>,
    names_only: bool,
)
    requires
        entry.valid(),
    ensures
        scanned(entry, attributes, names_only).entry.valid(),
    decreases attributes.len(),
{
    if attributes.len() > 0 {
        lemma_scan_keeps_valid(entry, attributes.drop_last(), names_only);
    }
}

/// A scan that reads names only meets no contradiction.
pub proof fn lemma_scan_of_names_never_fails(entry: EntryView, attributes: Seq<MftAttribute>)
    ensures
        !scanned(entry, attributes, true).failed,
    decreases attributes.len(),
{
    if attributes.len() > 0 {
        lemma_scan_of_names_never_fails(entry, attributes.drop_last());
    }
}

/// A scan that has failed after `count` attributes is the scan of all of
/// them: what follows a contradiction is not read.
pub proof fn lemma_scan_stops_at_failure(
    entry: EntryView,
    attributes: Seq<MftAttribute>,
    names_only: bool,
    count: int,
)
    requires
        0 <= count <= attributes.len(),
        scanned(entry, attributes.take(count), names_only).failed,
    ensures
        scanned(entry, attributes, names_only) == scanned(
            entry,
            attributes.take(count),
            names_only,
        ),
    decreases attributes.len() - count,
{
    if count < attributes.len() {
        assert(attributes.take(count + 1).drop_last() =~= attributes.take(count));
        lemma_scan_stops_at_failure(entry, attributes, names_only, count + 1);
    } else {
        assert(attributes.take(count) =~= attributes);
    }
}

/// A scan that has made the entry complete after `count` attributes is
/// the scan of all of them: what follows is not read.
pub proof fn lemma_scan_stops_when_complete(
    entry: EntryView,
    attributes: Seq<MftAttribute>,
    names_only: bool,
    count: int,
)
    requires
        0 <= count <= attributes.len(),
        scanned(entry, attributes.take(count), names_only).entry.is_complete(),
    ensures
        scanned(entry, attributes, names_only) == scanned(
            entry,
            attributes.take(count),
            names_only,
        ),
    decreases attributes.len() - count,
{
    if count < attributes.len() {
        assert(attributes.take(count + 1).drop_last() =~= attributes.take(count));
        lemma_scan_stops_when_complete(entry, attributes, names_only, count + 1);
    } else {
        assert(attributes.take(count) =~= attributes);
    }
}

/// Once the name of an entry is final, no scan alters it.
pub proof fn lemma_final_name_survives_scan(
    entry: EntryView,
    attributes: Seq<MftAttribute>,
    names_only: bool,
)
    requires
        entry.file_name matches Some(name) && name.is_final(),
    ensures
        scanned(entry, attributes, names_only).entry.file_name == entry.file_name,
    decreases attributes.len(),
{
    if attributes.len() > 0 {
        lemma_final_name_survives_scan(entry, attributes.drop_last(), names_only);
    }
}

/// Once an entry is complete, no scan alters it at all.
pub proof fn lemma_complete_entry_survives_scan(
    entry: EntryView,
    attributes: Seq<MftAttribute>,
    names_only: bool,
)
    requires
        entry.is_complete(),
    ensures
        scanned(entry, attributes, names_only) == (Scan { entry, failed: false }),
    decreases attributes.len(),
{
    if attributes.len() > 0 {
        lemma_complete_entry_survives_scan(entry, attributes.drop_last(), names_only);
    }
}

} // verus!
