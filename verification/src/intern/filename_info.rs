//! The one `$FILE_NAME` attribute that names a file.

use vstd::prelude::*;
use crate::intern::timestamp_tuple::TimestampTuple;
use crate::intern::timestamp_tuple::Timestamps;
use crate::intern::timestamp_tuple::clamped_times;
use crate::record::FileNameAttr;
use crate::record::FileNamespace;
use crate::record::MftAttributeHeader;
use crate::reference::MftReference;

verus! {

/// The `$FILE_NAME` attribute chosen for a file among those of its records.
#[derive(Clone, Debug, PartialEq, Eq)]
pub struct FilenameInfo {
    filename: String,
    namespace: FileNamespace,
    timestamps: TimestampTuple,
    parent: MftReference,
    logical_size: u64,
    instance_id: u16,
}

/// What a `FilenameInfo` holds.
pub struct FilenameInfoView {
    pub filename: Seq<char>,
    pub namespace: FileNamespace,
    pub timestamps: Timestamps,
    pub parent: MftReference,
    pub logical_size: u64,
    pub instance_id: u16,
}

impl FilenameInfoView {
    pub open spec fn valid(self) -> bool {
        self.timestamps.valid()
    }

    /// A name in the name space Win32AndDos is final: no other replaces it.
    pub open spec fn is_final(self) -> bool {
        self.namespace == FileNamespace::Win32AndDos
    }
}

/// What is kept of a `$FILE_NAME` attribute and its header.
pub open spec fn built(attr: FileNameAttr, header: MftAttributeHeader) -> FilenameInfoView {
    FilenameInfoView {
        filename: attr.name@,
        namespace: attr.namespace,
        timestamps: clamped_times(attr.accessed, attr.mft_modified, attr.modified, attr.created),
        parent: attr.parent,
        logical_size: attr.logical_size,
        instance_id: header.instance,
    }
}

/// Whether a name in the name space `incoming` replaces one in `current`.
///
/// A final name is never replaced. Otherwise Win32AndDos and Win32 always
/// replace, POSIX replaces only DOS, and DOS replaces nothing.
pub open spec fn wins(incoming: FileNamespace, current: FileNamespace) -> bool {
    current != FileNamespace::Win32AndDos && match incoming {
        FileNamespace::Win32AndDos => true,
        FileNamespace::Win32 => true,
        FileNamespace::POSIX => current == FileNamespace::DOS,
        FileNamespace::DOS => false,
    }
}

/// The name that is kept once another `$FILE_NAME` attribute has been seen.
pub open spec fn updated(
    current: FilenameInfoView,
    attr: FileNameAttr,
    header: MftAttributeHeader,
) -> FilenameInfoView {
    if wins(attr.namespace, current.namespace) {
        built(attr, header)
    } else {
        current
    }
}

impl View for FilenameInfo {
    type V = FilenameInfoView;

    closed spec fn view(&self) -> FilenameInfoView {
        FilenameInfoView {
            filename: self.filename@,
            namespace: self.namespace,
            timestamps: self.timestamps@,
            parent: self.parent,
            logical_size: self.logical_size,
            instance_id: self.instance_id,
        }
    }
}

impl FilenameInfo {
    /// The invariant of the type: that of its times.
    pub open spec fn wf(&self) -> bool {
        self@.valid()
    }

    pub fn filename(&self) -> (name: &String)
        ensures
            name@ == self@.filename,
    {
        &self.filename
    }

    pub fn timestamps(&self) -> (t: &TimestampTuple)
        ensures
            t@ == self@.timestamps,
    {
        &self.timestamps
    }

    pub fn parent(&self) -> (p: &MftReference)
        ensures
            *p == self@.parent,
    {
        &self.parent
    }

    pub fn logical_size(&self) -> (size: u64)
        ensures
            size == self@.logical_size,
    {
        self.logical_size
    }

    pub fn instance_id(&self) -> (id: u16)
        ensures
            id == self@.instance_id,
    {
        self.instance_id
    }

    pub fn namespace(&self) -> (ns: FileNamespace)
        ensures
            ns == self@.namespace,
    {
        self.namespace
    }

    pub fn is_final(&self) -> (b: bool)
        ensures
            b == self@.is_final(),
    {
        self.namespace == FileNamespace::Win32AndDos
    }

    /// Keeps what the reconstruction needs of a `$FILE_NAME` attribute.
    pub fn from(attr: &FileNameAttr, header: &MftAttributeHeader) -> (info: FilenameInfo)
        ensures
            info.wf(),
            info@ == built(*attr, *header),
    {
        FilenameInfo {
            filename: attr.name.clone(),
            namespace: attr.namespace,
            timestamps: TimestampTuple::from_filename(attr),
            parent: attr.parent,
            logical_size: attr.logical_size,
            instance_id: header.instance,
        }
    }

    /// Takes another `$FILE_NAME` attribute of the same file into account:
    /// it replaces the one held where its name space wins.
    pub fn update(&mut self, attr: &FileNameAttr, header: &MftAttributeHeader)
        requires
            old(self).wf(),
        ensures
            final(self).wf(),
            final(self)@ == updated(old(self)@, *attr, *header),
    {
        if self.namespace == FileNamespace::Win32AndDos {
            return ;
        }
        match attr.namespace {
            FileNamespace::Win32AndDos => self.do_update(attr, header),
            FileNamespace::Win32 => self.do_update(attr, header),
            FileNamespace::POSIX => {
                if self.namespace == FileNamespace::DOS {
                    self.do_update(attr, header)
                }
            },
            FileNamespace::DOS => {},
        }
    }

    fn do_update(&mut self, attr: &FileNameAttr, header: &MftAttributeHeader)
        ensures
            final(self).wf(),
            final(self)@ == built(*attr, *header),
    {
        self.filename = attr.name.clone();
        self.namespace = attr.namespace;
        self.timestamps = TimestampTuple::from_filename(attr);
        self.parent = attr.parent;
        self.logical_size = attr.logical_size;
        self.instance_id = header.instance;
    }
}

/// The name space of the name held never moves down the ladder.
pub proof fn lemma_update_never_lowers(
    current: FilenameInfoView,
    attr: FileNameAttr,
    header: MftAttributeHeader,
)
    ensures
        updated(current, attr, header).namespace.rank() >= current.namespace.rank(),
{
}

/// A final name stays as it is, whatever attribute follows.
pub proof fn lemma_final_is_never_updated(
    current: FilenameInfoView,
    attr: FileNameAttr,
    header: MftAttributeHeader,
)
    requires
        current.is_final(),
    ensures
        updated(current, attr, header) == current,
{
}

/// To see the same attribute a second time changes nothing.
pub proof fn lemma_update_replay(
    current: FilenameInfoView,
    attr: FileNameAttr,
    header: MftAttributeHeader,
)
    ensures
        updated(updated(current, attr, header), attr, header) == updated(current, attr, header),
{
}

/// An attribute from a lower rung of the ladder changes nothing.
pub proof fn lemma_lower_namespace_is_ignored(
    current: FilenameInfoView,
    attr: FileNameAttr,
    header: MftAttributeHeader,
)
    requires
        attr.namespace.rank() < current.namespace.rank(),
    ensures
        updated(current, attr, header) == current,
{
}

/// A name that is valid stays valid under every update.
pub proof fn lemma_update_keeps_valid(
    current: FilenameInfoView,
    attr: FileNameAttr,
    header: MftAttributeHeader,
)
    requires
        current.valid(),
    ensures
        updated(current, attr, header).valid(),
{
}

} // verus!
