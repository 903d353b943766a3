//! The four times of a bodyfile line.

use vstd::prelude::*;
use vstd::std_specs::convert::FromSpec;
use vstd::std_specs::convert::FromSpecImpl;
use crate::filetime::FileTime;
use crate::filetime::unix_seconds_of;
use crate::record::FileNameAttr;
use crate::record::StandardInfoAttr;

verus! {

/// Four times in Unix seconds, none of them negative.
#[derive(Clone, Copy, Debug, PartialEq, Eq)]
pub struct TimestampTuple {
    accessed: i64,
    mft_modified: i64,
    modified: i64,
    created: i64,
}

/// What a `TimestampTuple` holds.
pub struct Timestamps {
    pub accessed: int,
    pub mft_modified: int,
    pub modified: int,
    pub created: int,
}

impl Timestamps {
    /// No time lies before 1970.
    pub open spec fn valid(self) -> bool {
        &&& 0 <= self.accessed <= i64::MAX
        &&& 0 <= self.mft_modified <= i64::MAX
        &&& 0 <= self.modified <= i64::MAX
        &&& 0 <= self.created <= i64::MAX
    }
}

/// The Unix second of a FILETIME, with 0 in place of a second before 1970.
pub open spec fn clamped_seconds(time: FileTime) -> int {
    if unix_seconds_of(time.ticks) < 0 {
        0
    } else {
        unix_seconds_of(time.ticks)
    }
}

/// The four times of an attribute on the Unix scale, each clamped at 0.
pub open spec fn clamped_times(
    accessed: FileTime,
    mft_modified: FileTime,
    modified: FileTime,
    created: FileTime,
) -> Timestamps {
    Timestamps {
        accessed: clamped_seconds(accessed),
        mft_modified: clamped_seconds(mft_modified),
        modified: clamped_seconds(modified),
        created: clamped_seconds(created),
    }
}

impl View for TimestampTuple {
    type V = Timestamps;

    closed spec fn view(&self) -> Timestamps {
        Timestamps {
            accessed: self.accessed as int,
            mft_modified: self.mft_modified as int,
            modified: self.modified as int,
            created: self.created as int,
        }
    }
}

impl TimestampTuple {
    /// The invariant of the type: no time is negative.
    pub open spec fn wf(&self) -> bool {
        self@.valid()
    }

    /// A FILETIME in Unix seconds; a time before 1970 cannot be used as a
    /// Unix time stamp and becomes 0.
    fn win32_to_unix_timestamp(win32_ts: &FileTime) -> (seconds: i64)
        ensures
            seconds == clamped_seconds(*win32_ts),
    {
        let seconds = win32_ts.unix_seconds();
        if seconds < 0 {
            0
        } else {
            seconds
        }
    }

    /// The times of a `$STANDARD_INFORMATION` attribute.
    pub fn from_standard_info(attr: &StandardInfoAttr) -> (t: TimestampTuple)
        ensures
            t.wf(),
            t@ == clamped_times(attr.accessed, attr.mft_modified, attr.modified, attr.created),
    {
        TimestampTuple {
            accessed: Self::win32_to_unix_timestamp(&attr.accessed),
            mft_modified: Self::win32_to_unix_timestamp(&attr.mft_modified),
            modified: Self::win32_to_unix_timestamp(&attr.modified),
            created: Self::win32_to_unix_timestamp(&attr.created),
        }
    }

    /// The times of a `$FILE_NAME` attribute.
    pub fn from_filename(attr: &FileNameAttr) -> (t: TimestampTuple)
        ensures
            t.wf(),
            t@ == clamped_times(attr.accessed, attr.mft_modified, attr.modified, attr.created),
    {
        TimestampTuple {
            accessed: Self::win32_to_unix_timestamp(&attr.accessed),
            mft_modified: Self::win32_to_unix_timestamp(&attr.mft_modified),
            modified: Self::win32_to_unix_timestamp(&attr.modified),
            created: Self::win32_to_unix_timestamp(&attr.created),
        }
    }

    /// The times of a journal event: the event's own time as the time of
    /// access, clamped at 0, and 0 for the three times that no event records.
    pub fn from_event(time: &FileTime) -> (t: TimestampTuple)
        ensures
            t.wf(),
            t@ == (Timestamps {
                accessed: clamped_seconds(*time),
                mft_modified: 0,
                modified: 0,
                created: 0,
            }),
    {
        TimestampTuple {
            accessed: Self::win32_to_unix_timestamp(time),
            mft_modified: 0,
            modified: 0,
            created: 0,
        }
    }

    pub fn accessed(&self) -> (seconds: i64)
        ensures
            seconds == self@.accessed,
    {
        self.accessed
    }

    pub fn mft_modified(&self) -> (seconds: i64)
        ensures
            seconds == self@.mft_modified,
    {
        self.mft_modified
    }

    pub fn modified(&self) -> (seconds: i64)
        ensures
            seconds == self@.modified,
    {
        self.modified
    }

    pub fn created(&self) -> (seconds: i64)
        ensures
            seconds == self@.created,
    {
        self.created
    }
}

impl From<&StandardInfoAttr> for TimestampTuple {
    fn from(attr: &StandardInfoAttr) -> (t: TimestampTuple) {
        TimestampTuple::from_standard_info(attr)
    }
}

impl FromSpecImpl<&StandardInfoAttr> for TimestampTuple {
    open spec fn obeys_from_spec() -> bool {
        true
    }

    closed spec fn from_spec(attr: &StandardInfoAttr) -> TimestampTuple {
        TimestampTuple {
            accessed: clamped_seconds(attr.accessed) as i64,
            mft_modified: clamped_seconds(attr.mft_modified) as i64,
            modified: clamped_seconds(attr.modified) as i64,
            created: clamped_seconds(attr.created) as i64,
        }
    }
}

impl From<&FileNameAttr> for TimestampTuple {
    fn from(attr: &FileNameAttr) -> (t: TimestampTuple) {
        TimestampTuple::from_filename(attr)
    }
}

impl FromSpecImpl<&FileNameAttr> for TimestampTuple {
    open spec fn obeys_from_spec() -> bool {
        true
    }

    closed spec fn from_spec(attr: &FileNameAttr) -> TimestampTuple {
        TimestampTuple {
            accessed: clamped_seconds(attr.accessed) as i64,
            mft_modified: clamped_seconds(attr.mft_modified) as i64,
            modified: clamped_seconds(attr.modified) as i64,
            created: clamped_seconds(attr.created) as i64,
        }
    }
}

/// What `from` makes of an attribute is what `from_standard_info` and
/// `from_filename` make of it.
pub proof fn lemma_from_is_clamped(info: &StandardInfoAttr, name: &FileNameAttr)
    ensures
        <TimestampTuple as FromSpec<&StandardInfoAttr>>::from_spec(info)@ == clamped_times(
            info.accessed,
            info.mft_modified,
            info.modified,
            info.created,
        ),
        <TimestampTuple as FromSpec<&FileNameAttr>>::from_spec(name)@ == clamped_times(
            name.accessed,
            name.mft_modified,
            name.modified,
            name.created,
        ),
{
}

/// Whatever four FILETIME values an attribute holds, none of the four Unix
/// times made from them is negative.
pub proof fn lemma_clamped_times_valid(
    accessed: FileTime,
    mft_modified: FileTime,
    modified: FileTime,
    created: FileTime,
)
    ensures
        clamped_times(accessed, mft_modified, modified, created).valid(),
{
}

} // verus!
