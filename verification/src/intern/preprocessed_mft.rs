//! The entries of a volume, by their base references.

use vstd::prelude::*;
use vstd::std_specs::hash::spec_keys_iter;
use vstd::std_specs::iter::IteratorSpec;
use vstd::string::*;
use std::collections::HashMap;
use likely_stable::unlikely as hint_unlikely;
use crate::intern::bodyfile_lines::entry_lines;
use crate::intern::bodyfile_lines::is_line_of;
use crate::intern::bodyfile_lines::lemma_lines_are_lines_of_entry;
use crate::intern::bodyfile_lines::text_of;
use crate::intern::complete_mft_entry::CompleteMftEntry;
use crate::intern::complete_mft_entry::EntryView;
use crate::intern::complete_mft_entry::lemma_scan_keeps_identity;
use crate::intern::complete_mft_entry::lemma_scan_keeps_valid;
use crate::intern::complete_mft_entry::scanned;
use crate::intern::error::NtfsError;
use crate::intern::event_order::lemma_time_ordered_is_ordered;
use crate::intern::event_order::time_ordered;
use crate::intern::paths::Entries;
use crate::intern::paths::ParentInfoView;
use crate::intern::paths::entry_path;
use crate::intern::paths::is_consistent;
use crate::intern::paths::lemma_journal_only_orphan_path;
use crate::intern::paths::lookup;
use crate::intern::paths::orphan_path;
use crate::intern::paths::parent_info;
use crate::record::MftEntry;
use crate::reference::MftReference;
use crate::reference::ROOT_ENTRY;
use crate::reference::lemma_key_injective;
use crate::reference::lemma_key_round_trip;
use crate::reference::reference_of_key;
use crate::text::join_path;
use crate::text::push_segment;
use crate::usnjrnl::usn_record::CommonUsnRecord;

verus! {

broadcast use vstd::std_specs::hash::group_hash_axioms;

/// What is known of the directory that a reference names.
#[derive(Clone, Debug, PartialEq, Eq)]
pub struct ParentInfo {
    pub full_path: String,
    pub is_allocated: bool,
    /// The reference under which the directory was found, if it was found.
    pub reference: Option<MftReference>,
}

impl View for ParentInfo {
    type V = ParentInfoView;

    open spec fn view(&self) -> ParentInfoView {
        ParentInfoView {
            full_path: self.full_path@,
            is_allocated: self.is_allocated,
            reference: self.reference,
        }
    }
}

/// The entries of a volume. Each file has one entry, which stands under
/// the reference of its base record.
///
/// The full paths that have been found are kept, so that a path is looked
/// for once. What is kept is thrown away when the entries change.
#[derive(Debug)]
pub struct PreprocessedMft {
    complete_entries: HashMap<u128, CompleteMftEntry>,
    full_paths: HashMap<u128, String>,
}

/// `likely_stable::unlikely`: returns what it is given, and tells the
/// compiler that this is seldom true.
#[verifier::external_body]
fn unlikely(b: bool) -> (r: bool)
    ensures
        r == b,
{
    hint_unlikely(b)
}

/// The entries after one record of the MFT has been taken in, and the
/// contradiction that the record ran into, if it did.
pub struct Ingest {
    pub entries: Entries,
    pub error: Option<NtfsError>,
}

/// What taking in a record of the MFT does to the entries.
///
/// A base record makes the entry of its file, or completes the entry that
/// a record extending it has made before. A record that extends a base
/// record is folded into the entry of that base record if it is allocated,
/// and dropped if it is not. A base record that holds
/// `$STANDARD_INFORMATION` twice makes no entry; where it meets an entry
/// that has `$STANDARD_INFORMATION` already, the entry stays as the scan
/// left it.
pub open spec fn with_record(entries: Entries, record: MftEntry) -> Ingest {
    let own = record.spec_reference();
    let base = record.header.base_reference;
    if record.spec_is_base() {
        if entries.contains_key(own) {
            let scan = scanned(entries[own], record.attributes@, false);
            if scan.failed {
                Ingest {
                    entries: entries.insert(own, scan.entry),
                    error: Some(NtfsError::MultipleStandardInfo(own)),
                }
            } else {
                Ingest {
                    entries: entries.insert(
                        own,
                        EntryView {
                            is_allocated: record.allocated,
                            is_directory: record.directory,
                            ..scan.entry
                        },
                    ),
                    error: None,
                }
            }
        } else {
            let scan = scanned(
                EntryView::fresh(own, record.allocated, record.directory),
                record.attributes@,
                false,
            );
            if scan.failed {
                Ingest { entries, error: Some(NtfsError::MultipleStandardInfo(own)) }
            } else {
                Ingest { entries: entries.insert(own, scan.entry), error: None }
            }
        }
    } else if record.allocated {
        let before = if entries.contains_key(base) {
            entries[base]
        } else {
            EntryView::fresh(base, false, false)
        };
        Ingest {
            entries: entries.insert(base, scanned(before, record.attributes@, true).entry),
            error: None,
        }
    } else {
        Ingest { entries, error: None }
    }
}

/// What taking in the events of one file does to the entries: the events
/// join those of the file's entry, or make an entry that is not allocated.
pub open spec fn with_events(
    entries: Entries,
    reference: MftReference,
    records: Seq<CommonUsnRecord>,
) -> Entries {
    let before = if entries.contains_key(reference) {
        entries[reference]
    } else {
        EntryView::fresh(reference, false, false)
    };
    entries.insert(
        reference,
        EntryView { journal: time_ordered(before.journal + records), ..before },
    )
}

/// Whether `order` names every entry once: an order in which the entries
/// can be walked.
pub open spec fn is_walk_of(order: Seq<MftReference>, entries: Entries) -> bool {
    &&& order.no_duplicates()
    &&& forall|r: MftReference| order.contains(r) <==> entries.contains_key(r)
}

/// The lines of the first `count` entries of a walk, each entry's lines
/// together, if every one of these entries has its lines.
#[verifier::opaque]
pub open spec fn lines_along(
    entries: Entries,
    order: Seq<MftReference>,
    long_names: bool,
    fuel: nat,
    count: int,
) -> Option<Seq<Seq<char>>>
    decreases count,
{
    if count <= 0 {
        Some(Seq::<Seq<char>>::empty())
    } else {
        match (
            lines_along(entries, order, long_names, fuel, count - 1),
            entry_lines(entries, entries[order[count - 1]], long_names, fuel),
        ) {
            (Some(before), Some(lines)) => Some(before + lines),
            _ => None,
        }
    }
}

/// The number of lines that the entries of `order` give together.
pub open spec fn lines_along_total(entries: Entries, order: Seq<MftReference>) -> nat
    decreases order.len(),
{
    if order.len() == 0 {
        0
    } else {
        lines_along_total(entries, order.drop_last()) + entries[order.last()].line_count()
    }
}

/// The number of lines that all entries give together.
pub open spec fn total_lines(entries: Entries) -> nat {
    lines_along_total(entries, choose|order: Seq<MftReference>| is_walk_of(order, entries))
}

/// The lines of a walk are those of the walk without one of its entries,
/// and the lines of that entry.
pub proof fn lemma_total_without(entries: Entries, order: Seq<MftReference>, place: int)
    requires
        0 <= place < order.len(),
    ensures
        lines_along_total(entries, order) == lines_along_total(entries, order.remove(place))
            + entries[order[place]].line_count(),
    decreases order.len(),
{
    if place == order.len() - 1 {
        assert(order.remove(place) =~= order.drop_last());
    } else {
        lemma_total_without(entries, order.drop_last(), place);
        assert(order.remove(place).drop_last() =~= order.drop_last().remove(place));
        assert(order.remove(place).last() == order.last());
    }
}

/// Two orders that name the same entries, each once, give as many lines
/// one as the other: the number of lines does not hang on the order of the
/// walk.
pub proof fn lemma_total_of_every_walk(
    entries: Entries,
    first: Seq<MftReference>,
    second: Seq<MftReference>,
)
    requires
        first.no_duplicates(),
        second.no_duplicates(),
        forall|r: MftReference| first.contains(r) <==> second.contains(r),
    ensures
        lines_along_total(entries, first) == lines_along_total(entries, second),
    decreases first.len(),
{
    if first.len() == 0 {
        if second.len() > 0 {
            assert(second.contains(second[0]));
            assert(first.contains(second[0]));
        }
    } else {
        let r = first.last();
        assert(first.contains(r));
        let place = choose|j: int| 0 <= j < second.len() && second[j] == r;
        let front = first.drop_last();
        let rest = second.remove(place);
        lemma_total_without(entries, second, place);
        assert(front.no_duplicates());
        assert(rest.no_duplicates()) by {
            assert forall|i: int, j: int|
                0 <= i < rest.len() && 0 <= j < rest.len() && i != j implies rest[i]
                != rest[j] by {
                let i2 = if i < place {
                    i
                } else {
                    i + 1
                };
                let j2 = if j < place {
                    j
                } else {
                    j + 1
                };
                assert(rest[i] == second[i2]);
                assert(rest[j] == second[j2]);
            }
        }
        assert forall|x: MftReference| front.contains(x) <==> rest.contains(x) by {
            if front.contains(x) {
                let i = choose|i: int| 0 <= i < front.len() && front[i] == x;
                assert(first[i] == x);
                assert(x != r);
                assert(first.contains(x));
                let j = choose|j: int| 0 <= j < second.len() && second[j] == x;
                if j < place {
                    assert(rest[j] == x);
                } else {
                    assert(rest[j - 1] == x);
                }
            }
            if rest.contains(x) {
                let j = choose|j: int| 0 <= j < rest.len() && rest[j] == x;
                let j2 = if j < place {
                    j
                } else {
                    j + 1
                };
                assert(second[j2] == x);
                assert(second.contains(x));
                assert(x != r);
                let i = choose|i: int| 0 <= i < first.len() && first[i] == x;
                assert(front[i] == x);
            }
        }
        lemma_total_of_every_walk(entries, front, rest);
    }
}

/// Whether every entry has its lines: every walk to a path that a line
/// shows comes to an end within as many steps as there are entries.
pub open spec fn all_lines_exist(entries: Entries, long_names: bool) -> bool {
    forall|r: MftReference| #[trigger]
        entries.contains_key(r) ==> entry_lines(entries, entries[r], long_names, entries.dom().len())
            is Some
}

/// Whether `error` says of an entry that it is allocated and has no name,
/// and says so rightly.
pub open spec fn is_missing_name(entries: Entries, error: NtfsError) -> bool {
    match error {
        NtfsError::MissingFileNameForAllocated(r) => entries.contains_key(r)
            && entries[r].lacks_file_name(),
        _ => false,
    }
}

/// A count as far as the machine can count.
pub open spec fn saturated(count: nat) -> nat {
    if count <= usize::MAX {
        count
    } else {
        usize::MAX as nat
    }
}

impl Default for PreprocessedMft {
    fn default() -> (mft: Self)
        ensures
            mft.wf(),
            mft@ == Map::<MftReference, EntryView>::empty(),
    {
        PreprocessedMft::new()
    }
}

impl View for PreprocessedMft {
    type V = Entries;

    closed spec fn view(&self) -> Entries {
        Map::new(
            |r: MftReference| self.complete_entries@.contains_key(r.spec_key()),
            |r: MftReference| self.complete_entries@[r.spec_key()]@,
        )
    }
}

impl PreprocessedMft {
    /// Every entry is filed under the key of its own base reference.
    spec fn keys_agree(&self) -> bool {
        forall|k: u128| #[trigger]
            self.complete_entries@.contains_key(k) ==> self.complete_entries@[k]@.base_entry.spec_key()
                == k
    }

    /// Every path that is kept is the full path of the entry under whose
    /// key it is kept.
    spec fn paths_agree(&self) -> bool {
        forall|k: u128| #[trigger]
            self.full_paths@.contains_key(k) ==> self.complete_entries@.contains_key(k)
                && entry_path(self@, self.complete_entries@[k]@, self@.dom().len()) == Some(
                self.full_paths@[k]@,
            )
    }

    /// The full path that is kept for the entry under `reference`, if one
    /// is kept.
    pub closed spec fn kept_path(&self, reference: MftReference) -> Option<Seq<char>> {
        if self.full_paths@.contains_key(reference.spec_key()) {
            Some(self.full_paths@[reference.spec_key()]@)
        } else {
            None
        }
    }

    /// A path that is kept is the full path of its entry.
    pub proof fn lemma_kept_path_is_full_path(&self, reference: MftReference)
        requires
            self.wf(),
            self.kept_path(reference) is Some,
        ensures
            self@.contains_key(reference),
            entry_path(self@, self@[reference], self.budget()) == self.kept_path(reference),
    {
    }

    /// No path is kept.
    spec fn nothing_kept(&self) -> bool {
        self.full_paths@.len() == 0 && self.full_paths@.dom().finite()
    }

    /// The invariant of the type: every entry is valid and stands under its
    /// own base reference, and the paths that are kept are right.
    pub closed spec fn wf(&self) -> bool {
        self.keys_agree() && self.paths_agree() && is_consistent(self@)
    }

    /// The entries of a value of this type are consistent, and finitely
    /// many.
    pub proof fn lemma_consistent(&self)
        requires
            self.wf(),
        ensures
            is_consistent(self@),
            self@.dom().finite(),
    {
        self.lemma_count();
    }

    /// The number of steps that a walk from parent to parent may take: the
    /// number of entries. No walk that visits no entry twice takes more.
    pub open spec fn budget(&self) -> nat {
        self@.dom().len()
    }

    /// There are as many entries as keys, and they are finitely many.
    proof fn lemma_count(&self)
        requires
            self.wf(),
        ensures
            self@.dom().finite(),
            self@.dom().len() == self.complete_entries@.len(),
    {
        let keys = self.complete_entries@.dom();
        let back = |k: u128| reference_of_key(k);
        assert forall|k: u128| keys.contains(k) implies #[trigger] self@.dom().contains(back(k))
            && back(k).spec_key() == k by {
            assert(self.complete_entries@.contains_key(k));
            lemma_key_round_trip(self.complete_entries@[k]@.base_entry);
        }
        assert(vstd::relations::injective_on(back, keys)) by {
            assert forall|a: u128, b: u128|
                keys.contains(a) && keys.contains(b) && #[trigger] back(a) == #[trigger] back(
                    b,
                ) implies a == b by {
                assert(back(a).spec_key() == a);
                assert(back(b).spec_key() == b);
            }
        }
        assert(keys.map(back) =~= self@.dom()) by {
            assert forall|r: MftReference| keys.map(back).contains(r) <==> self@.dom().contains(
                r,
            ) by {
                if self@.dom().contains(r) {
                    lemma_key_round_trip(r);
                    assert(keys.contains(r.spec_key()));
                    assert(back(r.spec_key()) == r);
                }
            }
        }
        vstd::set_lib::lemma_map_size(keys, self@.dom(), back);
    }

    /// Whether the walk from `reference` comes to an end.
    pub open spec fn resolves(&self, reference: MftReference) -> bool {
        parent_info(self@, reference, self.budget()) is Some
    }

    /// Whether the walk from `entry` comes to an end.
    pub open spec fn resolves_entry(&self, entry: EntryView) -> bool {
        entry_path(self@, entry, self.budget()) is Some
    }

    pub fn new() -> (mft: Self)
        ensures
            mft.wf(),
            mft@ == Map::<MftReference, EntryView>::empty(),
    {
        let mft = PreprocessedMft { complete_entries: HashMap::new(), full_paths: HashMap::new() };
        assert(mft@ =~= Map::<MftReference, EntryView>::empty());
        mft
    }

    /// The number of entries.
    pub fn len(&self) -> (n: usize)
        requires
            self.wf(),
        ensures
            n == self.budget(),
    {
        proof {
            self.lemma_count();
        }
        self.complete_entries.len()
    }

    /// Whether an entry stands under `reference`.
    pub fn contains(&self, reference: &MftReference) -> (b: bool)
        ensures
            b == self@.contains_key(*reference),
    {
        self.complete_entries.contains_key(&reference.key())
    }

    /// The entry that stands under `reference`.
    pub fn get(&self, reference: &MftReference) -> (entry: Option<&CompleteMftEntry>)
        requires
            self.wf(),
        ensures
            match entry {
                Some(e) => self@.contains_key(*reference) && e@ == self@[*reference] && e.wf(),
                None => !self@.contains_key(*reference),
            },
    {
        self.complete_entries.get(&reference.key())
    }

    /// Whether a record is the base record of its file.
    pub fn is_base_entry(entry: &MftEntry) -> (b: bool)
        ensures
            b == entry.spec_is_base(),
    {
        entry.header.base_reference.entry == 0 && entry.header.base_reference.sequence == 0
    }

    proof fn lemma_view_after_insert(
        before: Map<u128, CompleteMftEntry>,
        after: Map<u128, CompleteMftEntry>,
        reference: MftReference,
        entry: CompleteMftEntry,
    )
        requires
            after == before.insert(reference.spec_key(), entry),
        ensures
            Map::new(
                |r: MftReference| after.contains_key(r.spec_key()),
                |r: MftReference| after[r.spec_key()]@,
            ) == Map::new(
                |r: MftReference| before.contains_key(r.spec_key()),
                |r: MftReference| before[r.spec_key()]@,
            ).insert(reference, entry@),
    {
        let new_view = Map::new(
            |r: MftReference| after.contains_key(r.spec_key()),
            |r: MftReference| after[r.spec_key()]@,
        );
        let old_view = Map::new(
            |r: MftReference| before.contains_key(r.spec_key()),
            |r: MftReference| before[r.spec_key()]@,
        );
        assert forall|r: MftReference| r.spec_key() == reference.spec_key() implies r
            == reference by {
            lemma_key_injective(r, reference);
        }
        assert(new_view =~= old_view.insert(reference, entry@));
    }

    /// Files `entry` under the key of `reference`, in place of what stood
    /// there.
    fn put(&mut self, reference: MftReference, entry: CompleteMftEntry)
        requires
            old(self).wf(),
            old(self).nothing_kept(),
            entry.wf(),
            entry@.base_entry == reference,
        ensures
            final(self).wf(),
            final(self).nothing_kept(),
            final(self)@ == old(self)@.insert(reference, entry@),
    {
        let key = reference.key();
        self.complete_entries.insert(key, entry);
        proof {
            Self::lemma_view_after_insert(
                old(self).complete_entries@,
                self.complete_entries@,
                reference,
                entry,
            );
            assert forall|r: MftReference| #[trigger] self@.contains_key(r) implies self@[r].valid()
                && self@[r].base_entry == r by {
                if r != reference {
                    assert(old(self)@.contains_key(r));
                }
            }
        }
    }

    /// Takes the entry out that stands under `reference`; it is to be put
    /// back under the same reference.
    fn take(&mut self, reference: MftReference) -> (entry: Option<CompleteMftEntry>)
        requires
            old(self).wf(),
            old(self).nothing_kept(),
        ensures
            final(self).wf(),
            final(self).nothing_kept(),
            match entry {
                Some(e) => old(self)@.contains_key(reference) && e@ == old(self)@[reference]
                    && e.wf() && final(self)@ == old(self)@.remove(reference),
                None => !old(self)@.contains_key(reference) && final(self)@ == old(self)@,
            },
    {
        let key = reference.key();
        let entry = self.complete_entries.remove(&key);
        proof {
            assert forall|r: MftReference| r.spec_key() == reference.spec_key() implies r
                == reference by {
                lemma_key_injective(r, reference);
            }
            if entry is Some {
                assert(self@ =~= old(self)@.remove(reference));
            } else {
                assert(self@ =~= old(self)@);
            }
            assert forall|r: MftReference| #[trigger] self@.contains_key(r) implies self@[r].valid()
                && self@[r].base_entry == r by {
                assert(old(self)@.contains_key(r));
            }
        }
        entry
    }

    /// Throws away the paths that are kept: the entries are about to
    /// change.
    fn forget_paths(&mut self)
        requires
            old(self).wf(),
        ensures
            final(self).wf(),
            final(self).nothing_kept(),
            final(self)@ == old(self)@,
    {
        self.full_paths.clear();
        assert(self@ =~= old(self)@);
    }

    /// Finds the full path of every entry and keeps it, so that it need
    /// not be looked for again: afterwards the path of every entry whose
    /// walk comes to an end is kept, and the entries are as they were.
    pub fn memoize_paths(&mut self)
        requires
            old(self).wf(),
        ensures
            final(self).wf(),
            final(self)@ == old(self)@,
            forall|r: MftReference| #[trigger]
                final(self)@.contains_key(r) ==> final(self).kept_path(r) == entry_path(
                    final(self)@,
                    final(self)@[r],
                    final(self).budget(),
                ),
    {
        let order = self.references();
        let steps = self.len();
        let mut at: usize = 0;
        while at < order.len()
            invariant
                at <= order@.len(),
                self.wf(),
                self@ == old(self)@,
                steps == self@.dom().len(),
                is_walk_of(order@, self@),
                forall|j: int|
                    0 <= j < at ==> self.kept_path(#[trigger] order@[j]) == entry_path(
                        self@,
                        self@[order@[j]],
                        steps as nat,
                    ),
            decreases order@.len() - at,
        {
            let reference = order[at];
            let key = reference.key();
            let ghost kept = self.full_paths@;
            proof {
                assert(order@.contains(order@[at as int]));
                assert forall|j: int| 0 <= j < at implies (#[trigger] order@[j]).spec_key()
                    != key by {
                    if order@[j].spec_key() == key {
                        lemma_key_injective(order@[j], reference);
                    }
                }
            }
            let path = match self.complete_entries.get(&key) {
                Some(entry) => self.path_within(entry, steps),
                None => None,
            };
            match path {
                Some(path) => {
                    self.full_paths.insert(key, path);
                    assert(self@ =~= old(self)@);
                },
                None => {},
            }
            proof {
                assert forall|j: int| 0 <= j < at + 1 implies self.kept_path(
                    #[trigger] order@[j],
                ) == entry_path(self@, self@[order@[j]], steps as nat) by {
                    if j < at {
                        assert(self.full_paths@.contains_key(order@[j].spec_key())
                            == kept.contains_key(order@[j].spec_key()));
                    }
                }
            }
            at += 1;
        }
        proof {
            assert forall|r: MftReference| #[trigger] self@.contains_key(r) implies self.kept_path(
                r,
            ) == entry_path(self@, self@[r], self.budget()) by {
                assert(order@.contains(r));
                let j = choose|j: int| 0 <= j < order@.len() && order@[j] == r;
                assert(self.kept_path(order@[j]) == entry_path(
                    self@,
                    self@[order@[j]],
                    steps as nat,
                ));
            }
        }
    }

    /// The full path of the entry that stands under `reference`: the path
    /// that is kept, or else the path that the walk finds.
    fn path_of(&self, reference: &MftReference) -> (path: Option<String>)
        requires
            self.wf(),
            self@.contains_key(*reference),
        ensures
            match path {
                Some(p) => entry_path(self@, self@[*reference], self.budget()) == Some(p@),
                None => entry_path(self@, self@[*reference], self.budget()) is None,
            },
    {
        let key = reference.key();
        let kept = self.full_paths.get(&key);
        if unlikely(kept.is_none()) {
            match self.complete_entries.get(&key) {
                Some(entry) => self.path_within(entry, self.len()),
                None => None,
            }
        } else {
            match kept {
                Some(path) => Some(path.clone()),
                None => None,
            }
        }
    }

    /// Takes in one record of the MFT.
    pub fn add_entry(&mut self, entry: MftEntry) -> (done: Result<(), NtfsError>)
        requires
            old(self).wf(),
        ensures
            final(self).wf(),
            final(self)@ == with_record(old(self)@, entry).entries,
            match done {
                Ok(()) => with_record(old(self)@, entry).error is None,
                Err(e) => with_record(old(self)@, entry).error == Some(e),
            },
    {
        let reference = entry.reference();
        self.forget_paths();
        if Self::is_base_entry(&entry) {
            match self.take(reference) {
                Some(mut e) => {
                    proof {
                        lemma_scan_keeps_identity(e@, entry.attributes@, false);
                    }
                    let done = e.set_base_entry(reference, entry);
                    self.put(reference, e);
                    proof {
                        assert(old(self)@.remove(reference).insert(reference, e@) =~= old(
                            self,
                        )@.insert(reference, e@));
                    }
                    done
                },
                None => {
                    proof {
                        lemma_scan_keeps_identity(
                            EntryView::fresh(reference, entry.allocated, entry.directory),
                            entry.attributes@,
                            false,
                        );
                    }
                    match CompleteMftEntry::from_base_entry(reference, entry) {
                        Ok(ce) => {
                            self.put(reference, ce);
                            Ok(())
                        },
                        Err(e) => Err(e),
                    }
                },
            }
        } else if entry.is_allocated() {
            let base_reference = entry.header.base_reference;
            match self.take(base_reference) {
                Some(mut e) => {
                    proof {
                        lemma_scan_keeps_identity(e@, entry.attributes@, true);
                    }
                    let _ = e.add_nonbase_entry(entry);
                    self.put(base_reference, e);
                    proof {
                        assert(old(self)@.remove(base_reference).insert(base_reference, e@) =~= old(
                            self,
                        )@.insert(base_reference, e@));
                    }
                },
                None => {
                    proof {
                        lemma_scan_keeps_identity(
                            EntryView::fresh(base_reference, false, false),
                            entry.attributes@,
                            true,
                        );
                    }
                    let ce = CompleteMftEntry::from_nonbase_entry(reference, entry);
                    self.put(base_reference, ce);
                },
            }
            Ok(())
        } else {
            Ok(())
        }
    }

    /// Takes in the events of the journal that are about one file.
    pub fn add_usnjrnl_records(&mut self, reference: MftReference, records: Vec<CommonUsnRecord>)
        requires
            old(self).wf(),
        ensures
            final(self).wf(),
            final(self)@ == with_events(old(self)@, reference, records@),
    {
        self.forget_paths();
        match self.take(reference) {
            Some(mut e) => {
                e.add_usnjrnl_records(records);
                self.put(reference, e);
                proof {
                    assert(old(self)@.remove(reference).insert(reference, e@) =~= old(self)@.insert(
                        reference,
                        e@,
                    ));
                }
            },
            None => {
                proof {
                    assert(Seq::<CommonUsnRecord>::empty() + records@ =~= records@);
                }
                let ce = CompleteMftEntry::from_usnjrnl_records(reference, records);
                self.put(reference, ce);
            },
        }
    }

    /// The reference under which the entry that `reference` names is found.
    pub fn find(&self, reference: &MftReference) -> (found: Option<MftReference>)
        requires
            self.wf(),
        ensures
            found == lookup(self@, *reference),
    {
        if self.contains(reference) {
            return Some(*reference);
        }
        // the sequence number of a record is raised when its file is deleted
        if reference.sequence < u16::MAX {
            let deleted_ref = MftReference::new(reference.entry, reference.sequence + 1);
            if let Some(entry) = self.get(&deleted_ref) {
                if !entry.is_allocated() {
                    return Some(deleted_ref);
                }
            }
        }
        None
    }

    /// The full path of `entry`, where the walk to it takes no more than
    /// `fuel` steps.
    pub fn path_within(&self, entry: &CompleteMftEntry, fuel: usize) -> (path: Option<String>)
        requires
            self.wf(),
            entry.wf(),
        ensures
            match path {
                Some(p) => entry_path(self@, entry@, fuel as nat) == Some(p@),
                None => entry_path(self@, entry@, fuel as nat) is None,
            },
        decreases fuel,
    {
        if entry.base_entry().entry == ROOT_ENTRY {
            proof {
                reveal_strlit("/");
                assert("/"@ =~= seq!['/']);
            }
            return Some(String::from_str("/"));
        }
        let name = entry.own_name();
        match entry.parent_hint() {
            None => Some(name),
            Some(parent) => {
                if parent == *entry.base_entry() {
                    return None;
                }
                match self.find(&parent) {
                    None => Some(push_segment(String::from_str("/$OrphanFiles"), name.as_str())),
                    Some(found) => {
                        if fuel == 0 {
                            return None;
                        }
                        match self.get(&found) {
                            Some(above) => match self.path_within(above, fuel - 1) {
                                Some(path) => Some(push_segment(path, name.as_str())),
                                None => None,
                            },
                            None => None,
                        }
                    },
                }
            },
        }
    }

    /// What is known of the directory that `reference` names, if the walk
    /// to its path comes to an end.
    pub fn try_get_full_path(&self, reference: &MftReference) -> (info: Option<ParentInfo>)
        requires
            self.wf(),
        ensures
            match info {
                Some(i) => parent_info(self@, *reference, self.budget()) == Some(i@),
                None => !self.resolves(*reference),
            },
    {
        match self.find(reference) {
            None => Some(
                ParentInfo {
                    full_path: String::from_str("/$OrphanFiles"),
                    is_allocated: false,
                    reference: None,
                },
            ),
            Some(found) => match self.get(&found) {
                Some(entry) => match self.path_of(&found) {
                    Some(path) => Some(
                        ParentInfo {
                            full_path: path,
                            is_allocated: entry.is_allocated(),
                            reference: Some(found),
                        },
                    ),
                    None => None,
                },
                None => None,
            },
        }
    }

    /// What is known of the directory that `reference` names.
    ///
    /// An entry that stands under `reference` answers; else one that stands
    /// under the next generation of the same record and is not allocated;
    /// else the directory of the orphans.
    pub fn get_full_path(&self, reference: &MftReference) -> (info: ParentInfo)
        requires
            self.wf(),
            self.resolves(*reference),
        ensures
            parent_info(self@, *reference, self.budget()) == Some(info@),
    {
        self.try_get_full_path(reference).unwrap()
    }

    /// Whether every entry has its lines: every walk to a path that a line
    /// shows comes to an end.
    pub open spec fn lines_exist(&self, long_names: bool) -> bool {
        all_lines_exist(self@, long_names)
    }

    /// The keys under which entries are filed, each once.
    fn keys(&self) -> (keys: Vec<u128>)
        ensures
            keys@.no_duplicates(),
            keys@.to_set() == self.complete_entries@.dom(),
            keys@.len() == self.complete_entries@.len(),
    {
        let ghost all = spec_keys_iter(&self.complete_entries).remaining().unref();
        let mut keys: Vec<u128> = Vec::new();
        for k in it: self.complete_entries.keys()
            invariant
                it.seq().unref() == all,
                all == spec_keys_iter(&self.complete_entries).remaining().unref(),
                keys@ == all.take(it.index()),
        {
            proof {
                assert(all.take(it.index() + 1) =~= all.take(it.index()).push(*k));
            }
            keys.push(*k);
        }
        proof {
            assert(keys@ =~= all);
            let refs = spec_keys_iter(&self.complete_entries).remaining();
            assert forall|i: int, j: int|
                0 <= i < all.len() && 0 <= j < all.len() && i != j implies all[i] != all[j] by {
                assert(refs[i] != refs[j]);
            }
        }
        keys
    }

    /// The references under which entries stand, each once, in the order
    /// in which the entries are walked.
    pub fn references(&self) -> (order: Vec<MftReference>)
        requires
            self.wf(),
        ensures
            is_walk_of(order@, self@),
            order@.len() == self.budget(),
    {
        let keys = self.keys();
        proof {
            self.lemma_count();
        }
        let mut order: Vec<MftReference> = Vec::new();
        let mut at: usize = 0;
        while at < keys.len()
            invariant
                at <= keys@.len(),
                self.wf(),
                keys@.to_set() == self.complete_entries@.dom(),
                order@.len() == at,
                forall|i: int| 0 <= i < at ==> (#[trigger] order@[i]).spec_key() == keys@[i],
            decreases keys@.len() - at,
        {
            assert(keys@.to_set().contains(keys@[at as int]));
            match self.complete_entries.get(&keys[at]) {
                Some(entry) => {
                    order.push(*entry.base_entry());
                },
                None => {},
            }
            at += 1;
        }
        proof {
            assert forall|i: int, j: int|
                0 <= i < order@.len() && 0 <= j < order@.len() && i != j implies order@[i]
                != order@[j] by {
                assert(order@[i].spec_key() == keys@[i]);
                assert(order@[j].spec_key() == keys@[j]);
            }
            assert forall|r: MftReference| order@.contains(r) <==> self@.contains_key(r) by {
                if order@.contains(r) {
                    let i = choose|i: int| 0 <= i < order@.len() && order@[i] == r;
                    assert(order@[i].spec_key() == keys@[i]);
                    assert(keys@.to_set().contains(keys@[i]));
                }
                if self@.contains_key(r) {
                    assert(keys@.to_set().contains(r.spec_key()));
                    let i = choose|i: int| 0 <= i < keys@.len() && keys@[i] == r.spec_key();
                    assert(order@[i].spec_key() == keys@[i]);
                    lemma_key_injective(order@[i], r);
                }
            }
        }
        order
    }

    /// The entries that are allocated and yet have no name, each as the
    /// contradiction that it is.
    pub fn check_file_names(&self) -> (found: Vec<NtfsError>)
        requires
            self.wf(),
        ensures
            forall|i: int| 0 <= i < found@.len() ==> is_missing_name(self@, #[trigger] found@[i]),
            forall|r: MftReference|
                self@.contains_key(r) && self@[r].lacks_file_name() ==> found@.contains(
                    NtfsError::MissingFileNameForAllocated(r),
                ),
    {
        let order = self.references();
        let mut found: Vec<NtfsError> = Vec::new();
        let mut at: usize = 0;
        while at < order.len()
            invariant
                at <= order@.len(),
                self.wf(),
                is_walk_of(order@, self@),
                forall|i: int|
                    0 <= i < found@.len() ==> is_missing_name(self@, #[trigger] found@[i]),
                forall|j: int|
                    0 <= j < at && self@[#[trigger] order@[j]].lacks_file_name() ==> found@.contains(
                        NtfsError::MissingFileNameForAllocated(order@[j]),
                    ),
            decreases order@.len() - at,
        {
            proof {
                assert(order@.contains(order@[at as int]));
            }
            let ghost before = found@;
            match self.get(&order[at]) {
                Some(entry) => {
                    match entry.check_file_name() {
                        Ok(()) => {},
                        Err(e) => {
                            found.push(e);
                            proof {
                                assert(found@[before.len() as int] == e);
                            }
                        },
                    }
                },
                None => {},
            }
            proof {
                assert forall|j: int|
                    0 <= j < at + 1 && self@[#[trigger] order@[j]].lacks_file_name() implies found@.contains(
                    NtfsError::MissingFileNameForAllocated(order@[j]),
                ) by {
                    if j < at {
                        let i = choose|i: int|
                            0 <= i < before.len() && before[i]
                                == NtfsError::MissingFileNameForAllocated(order@[j]);
                        assert(found@[i] == before[i]);
                    } else {
                        assert(found@[before.len() as int]
                            == NtfsError::MissingFileNameForAllocated(order@[j]));
                    }
                }
            }
            at += 1;
        }
        proof {
            assert forall|r: MftReference|
                self@.contains_key(r) && self@[r].lacks_file_name() implies found@.contains(
                NtfsError::MissingFileNameForAllocated(r),
            ) by {
                assert(order@.contains(r));
                let j = choose|j: int| 0 <= j < order@.len() && order@[j] == r;
                assert(self@[order@[j]].lacks_file_name());
            }
        }
        found
    }

    /// The number of lines that all entries give, or the greatest number
    /// that the machine can count where they are more.
    pub fn bodyfile_lines_count(&self) -> (count: usize)
        requires
            self.wf(),
        ensures
            count == saturated(total_lines(self@)),
    {
        let order = self.references();
        let mut count: usize = 0;
        let mut at: usize = 0;
        proof {
            assert(order@.take(0) =~= Seq::<MftReference>::empty());
        }
        while at < order.len()
            invariant
                at <= order@.len(),
                self.wf(),
                is_walk_of(order@, self@),
                count == saturated(lines_along_total(self@, order@.take(at as int))),
            decreases order@.len() - at,
        {
            proof {
                assert(order@.contains(order@[at as int]));
                assert(order@.take(at + 1).drop_last() =~= order@.take(at as int));
            }
            match self.get(&order[at]) {
                Some(entry) => {
                    count = count.saturating_add(entry.bodyfile_lines_count());
                },
                None => {},
            }
            at += 1;
        }
        proof {
            assert(order@.take(at as int) =~= order@);
            let walk = choose|walk: Seq<MftReference>| is_walk_of(walk, self@);
            lemma_total_of_every_walk(self@, order@, walk);
        }
        count
    }

    /// The lines of all entries, if every entry has its lines: the lines
    /// of each entry together, the entries in the order of a walk.
    pub fn try_iter_entries(&self, usnjrnl_longflags: bool) -> (lines: Option<Vec<String>>)
        requires
            self.wf(),
        ensures
            match lines {
                Some(all) => exists|order: Seq<MftReference>|
                    is_walk_of(order, self@) && #[trigger] lines_along(
                        self@,
                        order,
                        usnjrnl_longflags,
                        self.budget(),
                        order.len() as int,
                    ) == Some(all@.map_values(text_of())),
                None => !self.lines_exist(usnjrnl_longflags),
            },
    {
        let order = self.references();
        let mut all: Vec<String> = Vec::new();
        let mut at: usize = 0;
        proof {
            reveal(lines_along);
            assert(all@.map_values(text_of()) =~= Seq::<Seq<char>>::empty());
        }
        while at < order.len()
            invariant
                at <= order@.len(),
                self.wf(),
                is_walk_of(order@, self@),
                lines_along(self@, order@, usnjrnl_longflags, self.budget(), at as int) == Some(
                    all@.map_values(text_of()),
                ),
            decreases order@.len() - at,
        {
            proof {
                reveal(lines_along);
                assert(order@.contains(order@[at as int]));
            }
            let entry = match self.get(&order[at]) {
                Some(entry) => entry,
                None => {
                    return None;
                },
            };
            let path = match self.path_of(&order[at]) {
                Some(path) => path,
                None => {
                    return None;
                },
            };
            let mut lines = match entry.lines_below(self, path, usnjrnl_longflags) {
                Some(lines) => lines,
                None => {
                    return None;
                },
            };
            let ghost before = all@.map_values(text_of());
            let ghost of_entry = lines@;
            let ghost mut given: int = 0;
            let mut more = true;
            while more
                invariant
                    0 <= given <= of_entry.len(),
                    lines@ == of_entry.skip(given),
                    all@.map_values(text_of()) == before + of_entry.take(given),
                    !more ==> given == of_entry.len(),
                decreases of_entry.len() - given + if more {
                    1int
                } else {
                    0int
                },
            {
                match lines.next() {
                    Some(line) => {
                        proof {
                            all@.lemma_push_map_commute(text_of(), line);
                            assert(of_entry.skip(given).drop_first() =~= of_entry.skip(given + 1));
                            assert((before + of_entry.take(given)).push(line@) =~= before
                                + of_entry.take(given + 1));
                            given = given + 1;
                        }
                        all.push(line);
                    },
                    None => {
                        more = false;
                    },
                }
            }
            proof {
                assert(of_entry.take(given) =~= of_entry);
            }
            at += 1;
        }
        Some(all)
    }

    /// The lines of all entries: the lines of each entry together, the
    /// entries in the order of a walk.
    pub fn iter_entries(&self, usnjrnl_longflags: bool) -> (lines: Vec<String>)
        requires
            self.wf(),
            self.lines_exist(usnjrnl_longflags),
        ensures
            exists|order: Seq<MftReference>|
                is_walk_of(order, self@) && #[trigger] lines_along(
                    self@,
                    order,
                    usnjrnl_longflags,
                    self.budget(),
                    order.len() as int,
                ) == Some(lines@.map_values(text_of())),
    {
        self.try_iter_entries(usnjrnl_longflags).unwrap()
    }
}

/// Events about a file that the entries do not know make an entry for it
/// that is not allocated and has no name of its own. Where the directory
/// that the latest event names is not found either, the file stands under
/// the path of the orphans, by the name that the latest event gives it.
pub proof fn lemma_unknown_file_becomes_orphan(
    entries: Entries,
    file: MftReference,
    events: Seq<CommonUsnRecord>,
    fuel: nat,
)
    requires
        !entries.contains_key(file),
        file.entry != 5,
        events.len() > 0,
        time_ordered(events).last().data.spec_parent_reference() != file,
        lookup(
            with_events(entries, file, events),
            time_ordered(events).last().data.spec_parent_reference(),
        ) is None,
    ensures
        with_events(entries, file, events).contains_key(file),
        !with_events(entries, file, events)[file].is_allocated,
        with_events(entries, file, events)[file].file_name is None,
        with_events(entries, file, events)[file].journal == time_ordered(events),
        entry_path(
            with_events(entries, file, events),
            with_events(entries, file, events)[file],
            fuel,
        ) == Some(join_path(orphan_path(), time_ordered(events).last().data.spec_filename())),
{
    lemma_time_ordered_is_ordered(events);
    assert(Seq::<CommonUsnRecord>::empty() + events =~= events);
    lemma_journal_only_orphan_path(
        with_events(entries, file, events),
        with_events(entries, file, events)[file],
        fuel,
    );
}

/// To take a record in leaves consistent entries consistent.
pub proof fn lemma_with_record_keeps_consistent(entries: Entries, record: MftEntry)
    requires
        is_consistent(entries),
    ensures
        is_consistent(with_record(entries, record).entries),
{
    let own = record.spec_reference();
    let base = record.header.base_reference;
    let after = with_record(entries, record).entries;
    if record.spec_is_base() {
        let before = if entries.contains_key(own) {
            entries[own]
        } else {
            EntryView::fresh(own, record.allocated, record.directory)
        };
        lemma_scan_keeps_identity(before, record.attributes@, false);
        lemma_scan_keeps_valid(before, record.attributes@, false);
    } else if record.allocated {
        let before = if entries.contains_key(base) {
            entries[base]
        } else {
            EntryView::fresh(base, false, false)
        };
        lemma_scan_keeps_identity(before, record.attributes@, true);
        lemma_scan_keeps_valid(before, record.attributes@, true);
    }
    assert forall|r: MftReference| #[trigger] after.contains_key(r) implies after[r].valid()
        && after[r].base_entry == r by {
        if r != own && r != base {
            assert(entries.contains_key(r));
        }
    }
}

/// To take events in leaves consistent entries consistent: the events of
/// every entry stay in ascending order of time.
pub proof fn lemma_with_events_keeps_consistent(
    entries: Entries,
    reference: MftReference,
    records: Seq<CommonUsnRecord>,
)
    requires
        is_consistent(entries),
    ensures
        is_consistent(with_events(entries, reference, records)),
{
    let before = if entries.contains_key(reference) {
        entries[reference]
    } else {
        EntryView::fresh(reference, false, false)
    };
    lemma_time_ordered_is_ordered(before.journal + records);
    let after = with_events(entries, reference, records);
    assert forall|r: MftReference| #[trigger] after.contains_key(r) implies after[r].valid()
        && after[r].base_entry == r by {
        if r != reference {
            assert(entries.contains_key(r));
        }
    }
}

/// Every line that a walk gives is a line of one of the entries: it is
/// made as all lines are, and none of its times is negative.
pub proof fn lemma_every_line_is_a_line_of_an_entry(
    entries: Entries,
    order: Seq<MftReference>,
    long_names: bool,
    fuel: nat,
    count: int,
    i: int,
)
    requires
        is_consistent(entries),
        0 <= count <= order.len(),
        forall|j: int| 0 <= j < order.len() ==> entries.contains_key(#[trigger] order[j]),
        lines_along(entries, order, long_names, fuel, count) is Some,
        0 <= i < lines_along(entries, order, long_names, fuel, count)->0.len(),
    ensures
        exists|r: MftReference|
            entries.contains_key(r) && #[trigger] is_line_of(
                entries[r],
                lines_along(entries, order, long_names, fuel, count)->0[i],
            ),
    decreases count,
{
    reveal(lines_along);
    let before = lines_along(entries, order, long_names, fuel, count - 1)->0;
    let r = order[count - 1];
    assert(entries.contains_key(r));
    let of_entry = entry_lines(entries, entries[r], long_names, fuel)->0;
    if i < before.len() {
        lemma_every_line_is_a_line_of_an_entry(entries, order, long_names, fuel, count - 1, i);
        assert((before + of_entry)[i] == before[i]);
    } else {
        lemma_lines_are_lines_of_entry(entries, entries[r], long_names, fuel, i - before.len());
        assert((before + of_entry)[i] == of_entry[i - before.len()]);
        assert(is_line_of(entries[r], of_entry[i - before.len()]));
    }
}

} // verus!
