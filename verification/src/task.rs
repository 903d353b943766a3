//! From the records of `$MFT` and the events of `$UsnJrnl:$J` to the lines
//! of a bodyfile.

use vstd::prelude::*;
use vstd::string::*;
use crate::intern::bodyfile_lines::text_of;
use crate::intern::error::NtfsError;
use crate::intern::paths::Entries;
use crate::intern::preprocessed_mft::Ingest;
use crate::intern::preprocessed_mft::PreprocessedMft;
use crate::intern::preprocessed_mft::all_lines_exist;
use crate::intern::preprocessed_mft::is_walk_of;
use crate::intern::preprocessed_mft::lines_along;
use crate::intern::preprocessed_mft::with_events;
use crate::intern::preprocessed_mft::with_record;
use crate::intern::usnjrnl::Buckets;
use crate::intern::usnjrnl::UsnJrnl;
use crate::intern::usnjrnl::grouped;
use crate::intern::usnjrnl::is_drain_of;
use crate::record::MftEntry;
use crate::reference::MftReference;
use crate::usnjrnl::usn_record::CommonUsnRecord;
use crate::vecs::reversed;

verus! {

/// Where the lines go.
#[derive(Clone, Debug, PartialEq, Eq)]
pub enum BodyfileSink {
    Stdout,
    /// The file of this path.
    File(String),
}

/// What is to be done: which files are read, how the lines are written,
/// and where they go.
#[derive(Clone, Debug, PartialEq, Eq)]
pub struct Mft2BodyfileTask {
    mft_file: String,
    usnjrnl: Option<String>,
    usnjrnl_longflags: bool,
    with_progressbar: bool,
    output: BodyfileSink,
}

/// The first record number of those that extend the `$MFT` itself.
pub const FIRST_EXTENSION_RECORD: u64 = 12;

/// The first record number behind those that extend the `$MFT` itself.
pub const END_OF_EXTENSION_RECORDS: u64 = 24;

/// Why a record is left out.
#[derive(Clone, Copy, Debug, PartialEq, Eq, Structural)]
pub enum Rejection {
    /// The record is one of those that extend the `$MFT` itself.
    ExtensionRecord,
    /// The record has no content.
    EmptyRecord,
}

/// Whether a record is one of those that extend the `$MFT` itself.
pub open spec fn is_extension_record(record: MftEntry) -> bool {
    12 <= record.header.record_number < 24
}

/// Whether a record is taken in: it is none of those that extend the
/// `$MFT` itself, and it is not empty.
pub open spec fn is_taken_in(record: MftEntry) -> bool {
    !is_extension_record(record) && record.header.used_entry_size != 0
}

/// What a record does to the entries: nothing, if it is not taken in.
pub open spec fn ingested(entries: Entries, record: MftEntry) -> Ingest {
    if is_taken_in(record) {
        with_record(entries, record)
    } else {
        Ingest { entries, error: None }
    }
}

/// The entries that the records make, one record after the other, up to
/// the first contradiction.
pub open spec fn filled(records: Seq<MftEntry>) -> Ingest
    decreases records.len(),
{
    if records.len() == 0 {
        Ingest { entries: Map::empty(), error: None }
    } else {
        let before = filled(records.drop_last());
        if before.error is Some {
            before
        } else {
            ingested(before.entries, records.last())
        }
    }
}

/// The entries with the events of the journal taken in: the events of each
/// file join its entry, or make one.
pub open spec fn with_journal(entries: Entries, buckets: Buckets) -> Entries {
    Map::new(
        |r: MftReference| entries.contains_key(r) || buckets.contains_key(r),
        |r: MftReference|
            if buckets.contains_key(r) {
                with_events(entries, r, buckets[r])[r]
            } else {
                entries[r]
            },
    )
}

/// The entries that the records and the events make together.
pub open spec fn reconstructed(records: Seq<MftEntry>, events: Seq<CommonUsnRecord>) -> Entries {
    with_journal(filled(records).entries, grouped(events))
}

/// Why a record is left out, if it is.
pub fn rejection(record: &MftEntry) -> (why: Option<Rejection>)
    ensures
        why == if is_extension_record(*record) {
            Some(Rejection::ExtensionRecord)
        } else if record.header.used_entry_size == 0 {
            Some(Rejection::EmptyRecord)
        } else {
            None
        },
        why is None <==> is_taken_in(*record),
{
    if FIRST_EXTENSION_RECORD <= record.header.record_number && record.header.record_number
        < END_OF_EXTENSION_RECORDS {
        Some(Rejection::ExtensionRecord)
    } else if record.header.used_entry_size == 0 {
        Some(Rejection::EmptyRecord)
    } else {
        None
    }
}

/// Whether a record is taken in.
pub fn accepts(record: &MftEntry) -> (b: bool)
    ensures
        b == is_taken_in(*record),
{
    rejection(record).is_none()
}

/// Takes a record in, unless it is one of those that are left out.
pub fn ingest(mft: &mut PreprocessedMft, record: MftEntry) -> (done: Result<(), NtfsError>)
    requires
        old(mft).wf(),
    ensures
        final(mft).wf(),
        final(mft)@ == ingested(old(mft)@, record).entries,
        match done {
            Ok(()) => ingested(old(mft)@, record).error is None,
            Err(e) => ingested(old(mft)@, record).error == Some(e),
        },
{
    if accepts(&record) {
        mft.add_entry(record)
    } else {
        Ok(())
    }
}

/// Takes the events of the journal into the entries.
pub fn merge_journal(mft: &mut PreprocessedMft, journal: UsnJrnl)
    requires
        old(mft).wf(),
        journal.wf(),
    ensures
        final(mft).wf(),
        final(mft)@ == with_journal(old(mft)@, journal@),
{
    let pairs = journal.into_iter();
    let ghost drained = pairs@;
    let mut rest = reversed(pairs);
    let ghost mut done: int = 0;
    proof {
        assert(mft@ =~= with_journal(old(mft)@, journal@.restrict(Set::<MftReference>::empty())));
    }
    while rest.len() > 0
        invariant
            0 <= done <= drained.len(),
            rest@.len() == drained.len() - done,
            forall|i: int| 0 <= i < rest@.len() ==> rest@[i] == drained[drained.len() - 1 - i],
            is_drain_of(drained, journal@),
            mft.wf(),
            mft@ == with_journal(
                old(mft)@,
                journal@.restrict(
                    Set::new(
                        |r: MftReference|
                            exists|i: int| 0 <= i < done && (#[trigger] drained[i]).0 == r,
                    ),
                ),
            ),
        decreases rest@.len(),
    {
        let ghost seen = Set::new(
            |r: MftReference| exists|i: int| 0 <= i < done && (#[trigger] drained[i]).0 == r,
        );
        let ghost seen_after = Set::new(
            |r: MftReference| exists|i: int| 0 <= i < done + 1 && (#[trigger] drained[i]).0 == r,
        );
        let (file, events) = rest.pop().unwrap();
        proof {
            assert((file, events) == drained[done]);
            assert(!seen.contains(file)) by {
                if seen.contains(file) {
                    let i = choose|i: int| 0 <= i < done && (#[trigger] drained[i]).0 == file;
                    assert(drained[i].0 != drained[done].0);
                }
            }
            assert(seen_after.contains(file));
            assert forall|r: MftReference| seen_after.contains(r) <==> (seen.contains(r) || r
                == file) by {
                if seen_after.contains(r) {
                    let i = choose|i: int| 0 <= i < done + 1 && (#[trigger] drained[i]).0 == r;
                    if i < done {
                        assert(seen.contains(r));
                    }
                }
                if seen.contains(r) {
                    let i = choose|i: int| 0 <= i < done && (#[trigger] drained[i]).0 == r;
                    assert(0 <= i < done + 1);
                }
            }
        }
        let ghost before = mft@;
        mft.add_usnjrnl_records(file, events);
        proof {
            assert(mft@ =~= with_journal(old(mft)@, journal@.restrict(seen_after)));
            done = done + 1;
        }
    }
    proof {
        let seen = Set::new(
            |r: MftReference| exists|i: int| 0 <= i < done && (#[trigger] drained[i]).0 == r,
        );
        assert(journal@.restrict(seen) =~= journal@) by {
            assert forall|r: MftReference| journal@.contains_key(r) implies seen.contains(r) by {
                let i = choose|i: int| 0 <= i < drained.len() && (#[trigger] drained[i]).0 == r;
                assert(0 <= i < done);
            }
        }
    }
}

impl Default for Mft2BodyfileTask {
    fn default() -> (task: Self)
        ensures
            task.mft_file()@.len() == 0,
            task.usnjrnl() is None,
            !task.usnjrnl_longflags(),
            !task.progressbar(),
            task.output() == BodyfileSink::Stdout,
    {
        Self {
            mft_file: String::new(),
            usnjrnl: None,
            usnjrnl_longflags: false,
            with_progressbar: false,
            output: BodyfileSink::Stdout,
        }
    }
}

impl Mft2BodyfileTask {
    /// The path of the `$MFT` that is read.
    pub closed spec fn mft_file(&self) -> String {
        self.mft_file
    }

    /// The path of the `$UsnJrnl:$J` that is read, if one is.
    pub closed spec fn usnjrnl(&self) -> Option<String> {
        self.usnjrnl
    }

    /// Whether the reasons of events are written by their full names.
    pub closed spec fn usnjrnl_longflags(&self) -> bool {
        self.usnjrnl_longflags
    }

    /// Whether progress is shown.
    pub closed spec fn progressbar(&self) -> bool {
        self.with_progressbar
    }

    /// Where the lines go.
    pub closed spec fn output(&self) -> BodyfileSink {
        self.output
    }

    pub fn with_mft_file(self, mft_file: String) -> (task: Self)
        ensures
            task.mft_file() == mft_file,
            task.usnjrnl() == self.usnjrnl(),
            task.usnjrnl_longflags() == self.usnjrnl_longflags(),
            task.progressbar() == self.progressbar(),
            task.output() == self.output(),
    {
        let mut task = self;
        task.mft_file = mft_file;
        task
    }

    pub fn with_usnjrnl(self, usnjrnl: Option<String>) -> (task: Self)
        ensures
            task.mft_file() == self.mft_file(),
            task.usnjrnl() == usnjrnl,
            task.usnjrnl_longflags() == self.usnjrnl_longflags(),
            task.progressbar() == self.progressbar(),
            task.output() == self.output(),
    {
        let mut task = self;
        task.usnjrnl = usnjrnl;
        task
    }

    pub fn with_usnjrnl_longflags(self, usnjrnl_longflags: bool) -> (task: Self)
        ensures
            task.mft_file() == self.mft_file(),
            task.usnjrnl() == self.usnjrnl(),
            task.usnjrnl_longflags() == usnjrnl_longflags,
            task.progressbar() == self.progressbar(),
            task.output() == self.output(),
    {
        let mut task = self;
        task.usnjrnl_longflags = usnjrnl_longflags;
        task
    }

    pub fn with_progressbar(self, with_progressbar: bool) -> (task: Self)
        ensures
            task.mft_file() == self.mft_file(),
            task.usnjrnl() == self.usnjrnl(),
            task.usnjrnl_longflags() == self.usnjrnl_longflags(),
            task.progressbar() == with_progressbar,
            task.output() == self.output(),
    {
        let mut task = self;
        task.with_progressbar = with_progressbar;
        task
    }

    pub fn with_output(self, output: BodyfileSink) -> (task: Self)
        ensures
            task.mft_file() == self.mft_file(),
            task.usnjrnl() == self.usnjrnl(),
            task.usnjrnl_longflags() == self.usnjrnl_longflags(),
            task.progressbar() == self.progressbar(),
            task.output() == output,
    {
        let mut task = self;
        task.output = output;
        task
    }

    pub fn get_mft_file(&self) -> (path: &String)
        ensures
            *path == self.mft_file(),
    {
        &self.mft_file
    }

    pub fn get_usnjrnl(&self) -> (path: &Option<String>)
        ensures
            *path == self.usnjrnl(),
    {
        &self.usnjrnl
    }

    pub fn get_usnjrnl_longflags(&self) -> (b: bool)
        ensures
            b == self.usnjrnl_longflags(),
    {
        self.usnjrnl_longflags
    }

    pub fn get_progressbar(&self) -> (b: bool)
        ensures
            b == self.progressbar(),
    {
        self.with_progressbar
    }

    pub fn get_output(&self) -> (sink: &BodyfileSink)
        ensures
            *sink == self.output(),
    {
        &self.output
    }

    /// Makes the entries of the records of an `$MFT`, one record after the
    /// other. The records that extend the `$MFT` itself and the records
    /// without content are left out. The first contradiction ends the work.
    pub fn fill_preprocessed_mft(records: Vec<MftEntry>) -> (made: Result<
        PreprocessedMft,
        NtfsError,
    >)
        ensures
            match made {
                Ok(mft) => mft.wf() && filled(records@).error is None && mft@ == filled(
                    records@,
                ).entries,
                Err(e) => filled(records@).error == Some(e),
            },
    {
        let mut pp = PreprocessedMft::new();
        let ghost mut done: int = 0;
        let mut rest = reversed(records);
        proof {
            assert(records@.take(0) =~= Seq::<MftEntry>::empty());
        }
        while rest.len() > 0
            invariant
                0 <= done <= records@.len(),
                rest@.len() == records@.len() - done,
                forall|i: int| 0 <= i < rest@.len() ==> rest@[i] == records@[records@.len() - 1 - i],
                pp.wf(),
                filled(records@.take(done)).error is None,
                pp@ == filled(records@.take(done)).entries,
            decreases rest@.len(),
        {
            let record = rest.pop().unwrap();
            proof {
                assert(record == records@[done]);
                assert(records@.take(done + 1).drop_last() =~= records@.take(done));
                assert(records@.take(done + 1).last() == record);
            }
            match ingest(&mut pp, record) {
                Ok(()) => {},
                Err(e) => {
                    proof {
                        lemma_filled_stops_at_error(records@, done + 1);
                    }
                    return Err(e);
                },
            }
            proof {
                done = done + 1;
            }
        }
        proof {
            assert(records@.take(done) =~= records@);
        }
        Ok(pp)
    }

    /// Makes the lines of a bodyfile of the records of an `$MFT` and the
    /// events of a `$UsnJrnl:$J`.
    ///
    /// The records make the entries; the events, grouped by file, join
    /// them; then every entry gives its lines. A contradiction among the
    /// records ends the work, and so does a path that cannot be found.
    pub fn run(&self, records: Vec<MftEntry>, events: Vec<CommonUsnRecord>) -> (made: Result<
        Vec<String>,
        NtfsError,
    >)
        ensures
            match made {
                Ok(lines) => filled(records@).error is None && exists|order: Seq<MftReference>|
                    is_walk_of(order, reconstructed(records@, events@)) && #[trigger] lines_along(
                        reconstructed(records@, events@),
                        order,
                        self.usnjrnl_longflags(),
                        reconstructed(records@, events@).dom().len(),
                        order.len() as int,
                    ) == Some(lines@.map_values(text_of())),
                Err(e) => filled(records@).error == Some(e) || (filled(records@).error is None
                    && e == NtfsError::UnresolvedPath && !all_lines_exist(
                    reconstructed(records@, events@),
                    self.usnjrnl_longflags(),
                )),
            },
    {
        let mut pp = match Self::fill_preprocessed_mft(records) {
            Ok(pp) => pp,
            Err(e) => {
                return Err(e);
            },
        };
        let journal = UsnJrnl::from(events);
        merge_journal(&mut pp, journal);
        pp.memoize_paths();
        match pp.try_iter_entries(self.usnjrnl_longflags) {
            Some(lines) => {
                proof {
                    let order = choose|order: Seq<MftReference>|
                        is_walk_of(order, pp@) && #[trigger] lines_along(
                            pp@,
                            order,
                            self.usnjrnl_longflags,
                            pp.budget(),
                            order.len() as int,
                        ) == Some(lines@.map_values(text_of()));
                    assert(pp@ == reconstructed(records@, events@));
                    assert(lines_along(
                        reconstructed(records@, events@),
                        order,
                        self.usnjrnl_longflags(),
                        reconstructed(records@, events@).dom().len(),
                        order.len() as int,
                    ) == Some(lines@.map_values(text_of())));
                }
                Ok(lines)
            },
            None => Err(NtfsError::UnresolvedPath),
        }
    }
}

/// Once the records have run into a contradiction, further records change
/// nothing.
pub proof fn lemma_filled_stops_at_error(records: Seq<MftEntry>, count: int)
    requires
        0 <= count <= records.len(),
        filled(records.take(count)).error is Some,
    ensures
        filled(records) == filled(records.take(count)),
    decreases records.len() - count,
{
    if count < records.len() {
        assert(records.take(count + 1).drop_last() =~= records.take(count));
        lemma_filled_stops_at_error(records, count + 1);
    } else {
        assert(records.take(count) =~= records);
    }
}

/// A record that extends the `$MFT` itself leaves the entries as they are.
pub proof fn lemma_extension_record_is_dropped(entries: Entries, record: MftEntry)
    requires
        12 <= record.header.record_number < 24,
    ensures
        ingested(entries, record) == (Ingest { entries, error: None }),
{
}

/// A record without content leaves the entries as they are.
pub proof fn lemma_empty_record_is_dropped(entries: Entries, record: MftEntry)
    requires
        record.header.used_entry_size == 0,
    ensures
        ingested(entries, record) == (Ingest { entries, error: None }),
{
}

/// The test that picks the records that do not extend the `$MFT` itself.
pub open spec fn not_extension() -> spec_fn(MftEntry) -> bool {
    |record: MftEntry| !is_extension_record(record)
}

/// The records that extend the `$MFT` itself leave no trace: the entries
/// are those that the other records make alone.
pub proof fn lemma_extension_records_leave_no_trace(records: Seq<MftEntry>)
    ensures
        filled(records) == filled(records.filter(not_extension())),
    decreases records.len(),
{
    if records.len() > 0 {
        let front = records.drop_last();
        lemma_extension_records_leave_no_trace(front);
        front.lemma_filter_push(records.last(), not_extension());
        assert(records =~= front.push(records.last()));
        if !is_extension_record(records.last()) {
            assert(front.filter(not_extension()).push(records.last()).drop_last()
                =~= front.filter(not_extension()));
        }
    } else {
        assert(records.filter(not_extension()) =~= records) by {
            records.lemma_all_neg_filter_empty(not_extension());
        }
    }
}

} // verus!
