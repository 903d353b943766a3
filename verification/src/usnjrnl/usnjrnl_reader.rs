//! The records of a journal, one after the other.

use vstd::prelude::*;
use crate::bytes::in_buffer;
use crate::usnjrnl::usn_reader_error::UsnReaderError;
use crate::usnjrnl::usn_record::CommonUsnRecord;
use crate::usnjrnl::usn_record::UsnRecordCommonHeader;
use crate::usnjrnl::usn_record::header_at;
use crate::usnjrnl::usn_record::no_more_data;
use crate::usnjrnl::usn_record::reads_as;
use crate::usnjrnl::usn_record::record_start;

verus! {

/// A reader of the records in the bytes of a `$UsnJrnl:$J`.
#[derive(Debug)]
pub struct UsnJrnlReader {
    data: Vec<u8>,
    index: usize,
    finished: bool,
}

/// The state of a reader: the bytes, the place at which it stands, and
/// whether it has come to the end.
pub struct ReaderView {
    pub data: Seq<u8>,
    pub index: int,
    pub finished: bool,
}

/// What was read at one place: a record, or the reason why there is none.
pub type Reading = Result<CommonUsnRecord, UsnReaderError>;

/// The place behind the record that a reader standing at `at` reads: the
/// start of the record and its length.
pub open spec fn place_after(data: Seq<u8>, at: int) -> int {
    record_start(data, at) + header_at(data, record_start(data, at)).RecordLength
}

/// Whether `reading` is what a reader gives that stands at `place`, and
/// `next` is the place at which it stands then.
#[verifier::opaque]
pub open spec fn is_step(data: Seq<u8>, place: int, reading: Reading, next: int) -> bool {
    !no_more_data(data, place) && reads_as(data, place, reading) && next == place_after(
        data,
        place,
    )
}

/// Whether `readings` are what a reader gives that starts at `start`: one
/// reading at each of `places`, each place behind the record of the place
/// before, until the records have come to their end.
pub open spec fn is_reading_of(
    data: Seq<u8>,
    start: int,
    places: Seq<int>,
    readings: Seq<Reading>,
) -> bool {
    &&& places.len() == readings.len() + 1
    &&& places[0] == start
    &&& forall|i: int|
        0 <= i < readings.len() ==> is_step(data, #[trigger] places[i], readings[i], places[i + 1])
    &&& no_more_data(data, places.last())
}

impl View for UsnJrnlReader {
    type V = ReaderView;

    closed spec fn view(&self) -> ReaderView {
        ReaderView { data: self.data@, index: self.index as int, finished: self.finished }
    }
}

impl UsnJrnlReader {
    /// A reader that stands at the start of `data`.
    pub fn from(data: Vec<u8>) -> (reader: Self)
        ensures
            reader@ == (ReaderView { data: data@, index: 0, finished: false }),
    {
        UsnJrnlReader { data, index: 0, finished: false }
    }

    /// Reads the next record, or says why there is none at this place. A
    /// reader at the end gives nothing, and stays there.
    ///
    /// After a reading the reader stands behind the record, by the length
    /// that the record's header gives. Where that place lies beyond what
    /// the machine can count, the reader is at the end.
    pub fn next(&mut self) -> (reading: Option<Reading>)
        ensures
            final(self)@.data == old(self)@.data,
            old(self)@.finished || no_more_data(old(self)@.data, old(self)@.index) ==> reading
                is None && final(self)@.finished,
            !old(self)@.finished && !no_more_data(old(self)@.data, old(self)@.index) ==> ({
                let after = place_after(old(self)@.data, old(self)@.index);
                &&& reading matches Some(r) && reads_as(old(self)@.data, old(self)@.index, r)
                &&& after > old(self)@.index
                &&& if after <= usize::MAX {
                    final(self)@.index == after && !final(self)@.finished
                } else {
                    final(self)@.finished
                }
            }),
    {
        if self.finished {
            return None;
        }
        let mut index = self.index;
        let reading = CommonUsnRecord::from(self.data.as_slice(), &mut index);
        if let Err(UsnReaderError::NoMoreData) = reading {
            self.finished = true;
            return None;
        }
        let len = self.data.len();
        match UsnRecordCommonHeader::from_bytes(self.data.as_slice(), index) {
            Some(header) => {
                match index.checked_add(header.RecordLength as usize) {
                    Some(after) => {
                        self.index = after;
                    },
                    None => {
                        self.finished = true;
                    },
                }
            },
            None => {
                self.finished = true;
            },
        }
        Some(reading)
    }

    /// Reads to the end: the readings of all places, in their order.
    pub fn read_all(&mut self) -> (readings: Vec<Reading>)
        requires
            !old(self)@.finished,
        ensures
            final(self)@.data == old(self)@.data,
            final(self)@.finished,
            exists|places: Seq<int>| #[trigger]
                is_reading_of(old(self)@.data, old(self)@.index, places, readings@),
    {
        let mut readings: Vec<Reading> = Vec::new();
        let ghost mut places: Seq<int> = seq![self.index as int];
        let ghost data = self.data@;
        let len = self.data.len();
        let mut more = true;
        while more
            invariant
                self@.data == data,
                len == data.len(),
                places.len() == readings@.len() + 1,
                places[0] == old(self)@.index,
                forall|i: int|
                    0 <= i < readings@.len() ==> is_step(
                        data,
                        #[trigger] places[i],
                        readings@[i],
                        places[i + 1],
                    ),
                more ==> !self@.finished && self@.index == places.last(),
                !more ==> self@.finished && no_more_data(data, places.last()),
            decreases
                    (if more {
                        1int
                    } else {
                        0int
                    }) + (if more && self@.index <= len {
                        len - self@.index + 1
                    } else {
                        0int
                    }),
        {
            let ghost at = self@.index;
            let ghost before = places;
            match self.next() {
                Some(reading) => {
                    proof {
                        let after = place_after(data, at);
                        places = places.push(after);
                        assert(is_step(data, at, reading, after)) by {
                            reveal(is_step);
                        }
                        assert(in_buffer(data.len() as int, at, 8));
                        if after > usize::MAX {
                            assert(!in_buffer(data.len() as int, after, 8));
                        }
                        assert forall|i: int| 0 <= i < readings@.len() + 1 implies is_step(
                            data,
                            #[trigger] places[i],
                            readings@.push(reading)[i],
                            places[i + 1],
                        ) by {
                            if i < readings@.len() {
                                assert(places[i] == before[i]);
                                assert(places[i + 1] == before[i + 1]);
                            }
                        }
                    }
                    readings.push(reading);
                    if self.finished {
                        more = false;
                    }
                },
                None => {
                    more = false;
                },
            }
        }
        proof {
            assert(is_reading_of(old(self)@.data, old(self)@.index, places, readings@));
        }
        readings
    }

    /// Whether the reader has come to the end.
    pub fn is_finished(&self) -> (b: bool)
        ensures
            b == self@.finished,
    {
        self.finished
    }
}

} // verus!
