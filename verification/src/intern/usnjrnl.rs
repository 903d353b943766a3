//! The events of the journal, grouped by the files that they are about.

use vstd::prelude::*;
use vstd::std_specs::hash::spec_keys_iter;
use vstd::std_specs::iter::IteratorSpec;
use std::collections::HashMap;
use crate::reference::MftReference;
use crate::reference::lemma_key_injective;
use crate::usnjrnl::usn_record::CommonUsnRecord;

verus! {

broadcast use vstd::std_specs::hash::group_hash_axioms;

/// The events of each file, in the order in which they were read.
pub type Buckets = Map<MftReference, Seq<CommonUsnRecord>>;

/// The events of the journal, each filed under the file that it is about.
/// The events of one file keep the order in which they are put in.
#[derive(Debug)]
pub struct UsnJrnl {
    entries: HashMap<u128, Vec<CommonUsnRecord>>,
}

/// The test that picks the events about one file.
pub open spec fn about(file: MftReference) -> spec_fn(CommonUsnRecord) -> bool {
    |event: CommonUsnRecord| event.data.spec_file_reference() == file
}

/// Whether one of the events is about `file`.
pub open spec fn mentions(events: Seq<CommonUsnRecord>, file: MftReference) -> bool {
    exists|i: int| 0 <= i < events.len() && (#[trigger] events[i]).data.spec_file_reference() == file
}

/// The events grouped by file: each file that an event is about has the
/// events about it, in their order.
pub open spec fn grouped(events: Seq<CommonUsnRecord>) -> Buckets {
    Map::new(
        |file: MftReference| mentions(events, file),
        |file: MftReference| events.filter(about(file)),
    )
}

/// The groups with one more event filed.
pub open spec fn with_event(buckets: Buckets, event: CommonUsnRecord) -> Buckets {
    let file = event.data.spec_file_reference();
    if buckets.contains_key(file) {
        buckets.insert(file, buckets[file].push(event))
    } else {
        buckets.insert(file, seq![event])
    }
}

/// Whether the pairs name every file of the groups once, each with its
/// events.
pub open spec fn is_drain_of(
    pairs: Seq<(MftReference, Vec<CommonUsnRecord>)>,
    buckets: Buckets,
) -> bool {
    &&& forall|i: int, j: int|
        0 <= i < pairs.len() && 0 <= j < pairs.len() && i != j ==> (#[trigger] pairs[i]).0
            != (#[trigger] pairs[j]).0
    &&& forall|i: int|
        0 <= i < pairs.len() ==> buckets.contains_key((#[trigger] pairs[i]).0)
            && buckets[pairs[i].0] == pairs[i].1@
    &&& forall|file: MftReference|
        buckets.contains_key(file) ==> exists|i: int|
            0 <= i < pairs.len() && (#[trigger] pairs[i]).0 == file
}

/// To group one more event is to file it with the events about its file.
pub proof fn lemma_grouped_push(events: Seq<CommonUsnRecord>, event: CommonUsnRecord)
    ensures
        grouped(events.push(event)) == with_event(grouped(events), event),
{
    let file = event.data.spec_file_reference();
    let more = events.push(event);
    assert forall|other: MftReference| mentions(more, other) <==> (mentions(events, other)
        || other == file) by {
        if mentions(more, other) {
            let i = choose|i: int|
                0 <= i < more.len() && (#[trigger] more[i]).data.spec_file_reference() == other;
            if i < events.len() {
                assert(events[i] == more[i]);
            }
        }
        if mentions(events, other) {
            let i = choose|i: int|
                0 <= i < events.len() && (#[trigger] events[i]).data.spec_file_reference()
                    == other;
            assert(more[i] == events[i]);
        }
        if other == file {
            assert(more[events.len() as int] == event);
        }
    }
    assert forall|other: MftReference| #[trigger]
        more.filter(about(other)) == if other == file {
            events.filter(about(other)).push(event)
        } else {
            events.filter(about(other))
        } by {
        events.lemma_filter_push(event, about(other));
    }
    if !mentions(events, file) {
        assert forall|i: int| 0 <= i < events.len() implies !(about(file))(
            #[trigger] events[i],
        ) by {}
        events.lemma_all_neg_filter_empty(about(file));
        assert(events.filter(about(file)).push(event) =~= seq![event]);
    }
    assert(grouped(more) =~= with_event(grouped(events), event));
}

impl Default for UsnJrnl {
    fn default() -> (journal: Self)
        ensures
            journal.wf(),
            journal@ == Map::<MftReference, Seq<CommonUsnRecord>>::empty(),
    {
        UsnJrnl::new()
    }
}

impl View for UsnJrnl {
    type V = Buckets;

    closed spec fn view(&self) -> Buckets {
        Map::new(
            |file: MftReference| self.entries@.contains_key(file.spec_key()),
            |file: MftReference| self.entries@[file.spec_key()]@,
        )
    }
}

impl UsnJrnl {
    /// The invariant of the type: every event is filed under the file that
    /// it is about, and no file is named without an event.
    pub closed spec fn wf(&self) -> bool {
        forall|k: u128| #[trigger]
            self.entries@.contains_key(k) ==> self.entries@[k]@.len() > 0
                && self.entries@[k]@[0].data.spec_file_reference().spec_key() == k
    }

    /// The number of files.
    pub closed spec fn spec_len(&self) -> nat {
        self.entries@.len()
    }

    pub fn new() -> (journal: Self)
        ensures
            journal.wf(),
            journal@ == Map::<MftReference, Seq<CommonUsnRecord>>::empty(),
            journal.spec_len() == 0,
    {
        let journal = UsnJrnl { entries: HashMap::new() };
        assert(journal@ =~= Map::<MftReference, Seq<CommonUsnRecord>>::empty());
        journal
    }

    /// The number of files that the events are about.
    pub fn len(&self) -> (n: usize)
        ensures
            n == self.spec_len(),
    {
        self.entries.len()
    }

    /// Whether there is no event.
    pub fn is_empty(&self) -> (b: bool)
        requires
            self.wf(),
        ensures
            b == (self.spec_len() == 0),
            b == (self@ == Map::<MftReference, Seq<CommonUsnRecord>>::empty()),
    {
        let b = self.entries.is_empty();
        proof {
            if b {
                assert(self.entries@.dom() =~= Set::<u128>::empty()) by {
                    self.entries@.dom().lemma_len0_is_empty();
                }
                assert(self@ =~= Map::<MftReference, Seq<CommonUsnRecord>>::empty());
            } else {
                if self@ == Map::<MftReference, Seq<CommonUsnRecord>>::empty() {
                    let k = choose|k: u128| self.entries@.dom().contains(k);
                    assert(self.entries@.contains_key(k));
                    let file = self.entries@[k]@[0].data.spec_file_reference();
                    assert(self@.contains_key(file));
                }
            }
        }
        b
    }

    /// Files one more event.
    pub fn insert(&mut self, record: CommonUsnRecord)
        requires
            old(self).wf(),
        ensures
            final(self).wf(),
            final(self)@ == with_event(old(self)@, record),
    {
        let file = record.data.file_reference();
        let key = file.key();
        proof {
            assert forall|other: MftReference| other.spec_key() == key implies other == file by {
                lemma_key_injective(other, file);
            }
        }
        match self.entries.remove(&key) {
            Some(mut bucket) => {
                bucket.push(record);
                self.entries.insert(key, bucket);
                assert(self@ =~= with_event(old(self)@, record));
            },
            None => {
                let mut bucket: Vec<CommonUsnRecord> = Vec::new();
                bucket.push(record);
                self.entries.insert(key, bucket);
                assert(self@ =~= with_event(old(self)@, record));
            },
        }
    }

    /// Groups events by the files that they are about.
    pub fn from(records: Vec<CommonUsnRecord>) -> (journal: Self)
        ensures
            journal.wf(),
            journal@ == grouped(records@),
    {
        let mut journal = UsnJrnl::new();
        let mut rest = records;
        let mut reversed: Vec<CommonUsnRecord> = Vec::new();
        while rest.len() > 0
            invariant
                reversed@.len() + rest@.len() == records@.len(),
                forall|i: int| 0 <= i < rest@.len() ==> rest@[i] == records@[i],
                forall|i: int|
                    0 <= i < reversed@.len() ==> reversed@[i] == records@[records@.len() - 1 - i],
            decreases rest@.len(),
        {
            let event = rest.pop().unwrap();
            reversed.push(event);
        }
        let ghost mut done: int = 0;
        proof {
            assert(records@.take(0) =~= Seq::<CommonUsnRecord>::empty());
            assert(grouped(Seq::<CommonUsnRecord>::empty()) =~= Map::<
                MftReference,
                Seq<CommonUsnRecord>,
            >::empty());
        }
        while reversed.len() > 0
            invariant
                0 <= done <= records@.len(),
                reversed@.len() == records@.len() - done,
                forall|i: int|
                    0 <= i < reversed@.len() ==> reversed@[i] == records@[records@.len() - 1 - i],
                journal.wf(),
                journal@ == grouped(records@.take(done)),
            decreases reversed@.len(),
        {
            let event = reversed.pop().unwrap();
            proof {
                assert(event == records@[done]);
                lemma_grouped_push(records@.take(done), event);
                assert(records@.take(done).push(event) =~= records@.take(done + 1));
            }
            journal.insert(event);
            proof {
                done = done + 1;
            }
        }
        proof {
            assert(records@.take(done) =~= records@);
        }
        journal
    }

    /// Hands the groups out: each file once, with the events about it.
    pub fn into_iter(self) -> (pairs: Vec<(MftReference, Vec<CommonUsnRecord>)>)
        requires
            self.wf(),
        ensures
            is_drain_of(pairs@, self@),
            pairs@.len() == self.spec_len(),
    {
        self.drain()
    }

    /// Hands the groups out: each file once, with the events about it, the
    /// events in the order in which they were put in.
    pub fn drain(self) -> (pairs: Vec<(MftReference, Vec<CommonUsnRecord>)>)
        requires
            self.wf(),
        ensures
            is_drain_of(pairs@, self@),
            pairs@.len() == self.spec_len(),
    {
        let mut journal = self;
        let ghost all = spec_keys_iter(&journal.entries).remaining().unref();
        let mut keys: Vec<u128> = Vec::new();
        for k in it: journal.entries.keys()
            invariant
                it.seq().unref() == all,
                all == spec_keys_iter(&journal.entries).remaining().unref(),
                keys@ == all.take(it.index()),
        {
            proof {
                assert(all.take(it.index() + 1) =~= all.take(it.index()).push(*k));
            }
            keys.push(*k);
        }
        proof {
            assert(keys@ =~= all);
            let refs = spec_keys_iter(&journal.entries).remaining();
            assert forall|i: int, j: int|
                0 <= i < all.len() && 0 <= j < all.len() && i != j implies all[i] != all[j] by {
                assert(refs[i] != refs[j]);
            }
        }
        let mut pairs: Vec<(MftReference, Vec<CommonUsnRecord>)> = Vec::new();
        let mut at: usize = 0;
        while at < keys.len()
            invariant
                at <= keys@.len(),
                keys@.no_duplicates(),
                keys@.to_set() == self.entries@.dom(),
                self.wf(),
                pairs@.len() == at,
                forall|k: u128|
                    journal.entries@.contains_key(k) <==> (self.entries@.contains_key(k)
                        && !keys@.take(at as int).contains(k)),
                forall|k: u128| #[trigger]
                    journal.entries@.contains_key(k) ==> journal.entries@[k] == self.entries@[k],
                forall|i: int|
                    0 <= i < at ==> (#[trigger] pairs@[i]).0.spec_key() == keys@[i] && pairs@[i].1
                        == self.entries@[keys@[i]],
            decreases keys@.len() - at,
        {
            let key = keys[at];
            proof {
                assert(keys@.to_set().contains(key));
                assert forall|k: u128| keys@.take(at + 1).contains(k) <==> (keys@.take(
                    at as int,
                ).contains(k) || k == key) by {
                    assert(keys@.take(at + 1) =~= keys@.take(at as int).push(key));
                    if keys@.take(at as int).contains(k) {
                        let i = choose|i: int|
                            0 <= i < keys@.take(at as int).len() && keys@.take(at as int)[i] == k;
                        assert(keys@.take(at + 1)[i] == k);
                    }
                    if k == key {
                        assert(keys@.take(at + 1)[at as int] == k);
                    }
                }
                if keys@.take(at as int).contains(key) {
                    let i = choose|i: int|
                        0 <= i < keys@.take(at as int).len() && keys@.take(at as int)[i] == key;
                    assert(keys@[i] == keys@[at as int]);
                }
            }
            match journal.entries.remove(&key) {
                Some(bucket) => {
                    let file = bucket[0].data.file_reference();
                    pairs.push((file, bucket));
                },
                None => {},
            }
            at += 1;
        }
        proof {
            assert forall|i: int, j: int|
                0 <= i < pairs@.len() && 0 <= j < pairs@.len() && i != j implies (
            #[trigger] pairs@[i]).0 != (#[trigger] pairs@[j]).0 by {
                assert(pairs@[i].0.spec_key() == keys@[i]);
                assert(pairs@[j].0.spec_key() == keys@[j]);
            }
            assert forall|i: int| 0 <= i < pairs@.len() implies self@.contains_key(
                (#[trigger] pairs@[i]).0,
            ) && self@[pairs@[i].0] == pairs@[i].1@ by {
                assert(keys@.to_set().contains(keys@[i]));
            }
            assert forall|file: MftReference| self@.contains_key(file) implies exists|i: int|
                0 <= i < pairs@.len() && (#[trigger] pairs@[i]).0 == file by {
                assert(keys@.to_set().contains(file.spec_key()));
                let i = choose|i: int| 0 <= i < keys@.len() && keys@[i] == file.spec_key();
                assert(pairs@[i].0.spec_key() == keys@[i]);
                lemma_key_injective(pairs@[i].0, file);
            }
        }
        pairs
    }
}

} // verus!
