//! Windows FILETIME values and their place on the Unix time scale.

use vstd::prelude::*;
use winstructs::timestamp::WinTimestamp;
use crate::bytes::le_u64_at;
use crate::bytes::read_u64;

verus! {

/// A point in time as NTFS stores it: the number of 100 ns ticks since
/// 1601-01-01 00:00:00 UTC.
#[derive(Clone, Copy, Debug, PartialEq, Eq, Structural)]
pub struct FileTime {
    pub ticks: u64,
}

/// Ticks in one second.
pub const TICKS_PER_SECOND: u64 = 10_000_000;

/// Seconds from 1601-01-01 to 1970-01-01.
pub const EPOCH_GAP_SECONDS: u64 = 11_644_473_600;

/// The whole Unix second in which the tick falls. It is negative for a time
/// before 1970.
pub open spec fn unix_seconds_of(ticks: u64) -> int {
    ticks as int / 10_000_000 - 11_644_473_600
}

/// The microsecond in which the tick falls, counted from 1601: the unit in
/// which two times are told apart when they are ordered.
pub open spec fn micros_of(ticks: u64) -> int {
    ticks as int / 10
}

/// `winstructs::timestamp::WinTimestamp::new` on the eight little-endian
/// bytes of `ticks`, then `WinTimestamp::to_datetime` and chrono's
/// `DateTime::timestamp`. The first reads the bytes back as the same number
/// and fails only on fewer than eight bytes. The second adds the ticks, cut
/// to whole microseconds, to 1601-01-01. The third counts the whole seconds
/// from 1970-01-01 to that time, rounding towards the past.
#[verifier::external_body]
fn win_timestamp_seconds(ticks: u64) -> (seconds: Option<i64>)
    ensures
        seconds == Some(unix_seconds_of(ticks) as i64),
{
    match WinTimestamp::new(&ticks.to_le_bytes()) {
        Ok(stamp) => Some(stamp.to_datetime().timestamp()),
        Err(_) => None,
    }
}

impl FileTime {
    pub fn new(ticks: u64) -> (t: Self)
        ensures
            t.ticks == ticks,
    {
        FileTime { ticks }
    }

    /// Reads a FILETIME from the first eight bytes of `buffer`, in
    /// little-endian order. Fewer than eight bytes hold no time.
    pub fn from_le_bytes(buffer: &[u8]) -> (t: Option<Self>)
        ensures
            buffer@.len() < 8 ==> t is None,
            buffer@.len() >= 8 ==> (t matches Some(time) && time.ticks == le_u64_at(buffer@, 0)),
    {
        if buffer.len() < 8 {
            return None;
        }
        let ticks = read_u64(buffer, 0);
        Some(FileTime { ticks })
    }

    /// The FILETIME of the tick that begins `subsec_ticks` ticks after the
    /// Unix second `seconds`. There is none before 1601 or beyond the range
    /// of 64 bits, nor where `subsec_ticks` is a second or more.
    pub fn from_unix(seconds: i64, subsec_ticks: u32) -> (t: Option<Self>)
        ensures
            t matches Some(time) ==> time.ticks == (seconds + 11_644_473_600) * 10_000_000
                + subsec_ticks,
            t is Some <==> subsec_ticks < 10_000_000 && 0 <= (seconds + 11_644_473_600) * 10_000_000
                + subsec_ticks <= u64::MAX,
    {
        if subsec_ticks >= 10_000_000 || seconds < -11_644_473_600 || seconds
            > 1_833_029_933_770 {
            return None;
        }
        let since_1601: u64 = (seconds + 11_644_473_600) as u64;
        let whole: u64 = since_1601 * TICKS_PER_SECOND;
        match whole.checked_add(subsec_ticks as u64) {
            Some(ticks) => Some(FileTime { ticks }),
            None => None,
        }
    }

    /// The FILETIME of the tick in which the nanosecond falls that begins
    /// `subsec_nanos` nanoseconds after the Unix second `seconds`.
    pub fn from_unix_nanos(seconds: i64, subsec_nanos: u32) -> (t: Option<Self>)
        ensures
            t matches Some(time) ==> time.ticks == (seconds + 11_644_473_600) * 10_000_000
                + subsec_nanos / 100,
            t is Some <==> subsec_nanos < 1_000_000_000 && 0 <= (seconds + 11_644_473_600)
                * 10_000_000 + subsec_nanos / 100 <= u64::MAX,
    {
        Self::from_unix(seconds, subsec_nanos / 100)
    }

    /// The whole Unix second in which this time falls.
    pub open spec fn spec_unix_seconds(&self) -> int {
        unix_seconds_of(self.ticks)
    }

    /// The whole Unix second in which this time falls; negative before 1970.
    pub fn unix_seconds(&self) -> (seconds: i64)
        ensures
            seconds == self.spec_unix_seconds(),
    {
        win_timestamp_seconds(self.ticks).unwrap()
    }

    /// The key by which times are ordered: whole microseconds.
    pub open spec fn spec_order_key(&self) -> int {
        micros_of(self.ticks)
    }

    /// Whether this time is not later than `other`, to the microsecond.
    pub fn not_after(&self, other: &FileTime) -> (b: bool)
        ensures
            b == (self.spec_order_key() <= other.spec_order_key()),
    {
        self.ticks / 10 <= other.ticks / 10
    }
}

/// A time written with `from_unix` is read back by `unix_seconds` as the
/// second it was written from.
pub proof fn lemma_from_unix_round_trip(seconds: i64, subsec_ticks: u32)
    requires
        subsec_ticks < 10_000_000,
        0 <= (seconds + 11_644_473_600) * 10_000_000 + subsec_ticks <= u64::MAX,
    ensures
        unix_seconds_of(((seconds + 11_644_473_600) * 10_000_000 + subsec_ticks) as u64)
            == seconds,
{
}

} // verus!
