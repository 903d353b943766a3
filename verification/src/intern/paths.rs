//! The full path of an entry: what the walk from parent to parent gives.
//!
//! A parent is named by reference. The walk looks each reference up among
//! the entries and may come to an end in four ways: at the root directory,
//! at an entry of which no parent is known, at a reference that no entry
//! answers to, or at an entry that names itself as its parent. The last
//! case, and a walk that takes more steps than it is allowed, give no path.

use vstd::prelude::*;
use crate::intern::complete_mft_entry::EntryView;
use crate::reference::MftReference;
use crate::reference::ROOT_ENTRY;
use crate::text::join_path;

verus! {

/// The entries of a volume by their base references.
pub type Entries = Map<MftReference, EntryView>;

/// The path under which the entries stand whose parent is not found.
pub open spec fn orphan_path() -> Seq<char> {
    "/$OrphanFiles"@
}

/// The path of the root directory.
pub open spec fn root_path() -> Seq<char> {
    seq!['/']
}

/// What is known of the directory that a reference names.
pub struct ParentInfoView {
    pub full_path: Seq<char>,
    pub is_allocated: bool,
    /// The reference under which the directory was found, if it was found.
    pub reference: Option<MftReference>,
}

/// The reference of the next generation of the same record.
pub open spec fn successor(r: MftReference) -> MftReference {
    MftReference { entry: r.entry, sequence: (r.sequence + 1) as u16 }
}

/// Whether every entry is valid and stands under its own base reference.
pub open spec fn is_consistent(entries: Entries) -> bool {
    forall|r: MftReference| #[trigger]
        entries.contains_key(r) ==> entries[r].valid() && entries[r].base_entry == r
}

/// The reference under which the entry that `r` names is found.
///
/// That is `r` itself where an entry stands under it. Else it is the next
/// generation of the same record, where an entry stands under that and is
/// not allocated: a directory that was deleted after the file that names
/// it. Else there is none.
pub open spec fn lookup(entries: Entries, r: MftReference) -> Option<MftReference> {
    if entries.contains_key(r) {
        Some(r)
    } else if r.sequence < u16::MAX && entries.contains_key(successor(r)) && !entries[successor(
        r,
    )].is_allocated {
        Some(successor(r))
    } else {
        None
    }
}

/// The full path of `entry`, where the walk to it takes no more than `fuel`
/// steps from entry to entry.
pub open spec fn entry_path(entries: Entries, entry: EntryView, fuel: nat) -> Option<Seq<char>>
    decreases fuel,
{
    if entry.base_entry.entry == ROOT_ENTRY {
        Some(root_path())
    } else {
        match entry.parent_hint() {
            None => Some(entry.own_name()),
            Some(parent) => {
                if parent == entry.base_entry {
                    None
                } else {
                    match lookup(entries, parent) {
                        None => Some(join_path(orphan_path(), entry.own_name())),
                        Some(found) => {
                            if fuel == 0 {
                                None
                            } else {
                                match entry_path(entries, entries[found], (fuel - 1) as nat) {
                                    Some(above) => Some(join_path(above, entry.own_name())),
                                    None => None,
                                }
                            }
                        },
                    }
                }
            },
        }
    }
}

/// What is known of the directory that `r` names, where the walk to its
/// path takes no more than `fuel` steps.
pub open spec fn parent_info(entries: Entries, r: MftReference, fuel: nat) -> Option<
    ParentInfoView,
> {
    match lookup(entries, r) {
        None => Some(
            ParentInfoView { full_path: orphan_path(), is_allocated: false, reference: None },
        ),
        Some(found) => match entry_path(entries, entries[found], fuel) {
            Some(path) => Some(
                ParentInfoView {
                    full_path: path,
                    is_allocated: entries[found].is_allocated,
                    reference: Some(found),
                },
            ),
            None => None,
        },
    }
}

/// A walk that comes to its end comes to the same end with every greater
/// number of steps allowed.
pub proof fn lemma_entry_path_needs_no_more(
    entries: Entries,
    entry: EntryView,
    fuel: nat,
    more: nat,
)
    requires
        entry_path(entries, entry, fuel) is Some,
        fuel <= more,
    ensures
        entry_path(entries, entry, more) == entry_path(entries, entry, fuel),
    decreases fuel,
{
    if entry.base_entry.entry != 5 {
        if let Some(parent) = entry.parent_hint() {
            if parent != entry.base_entry {
                if let Some(found) = lookup(entries, parent) {
                    lemma_entry_path_needs_no_more(
                        entries,
                        entries[found],
                        (fuel - 1) as nat,
                        (more - 1) as nat,
                    );
                }
            }
        }
    }
}

/// The same of the directory that a reference names.
pub proof fn lemma_parent_info_needs_no_more(
    entries: Entries,
    r: MftReference,
    fuel: nat,
    more: nat,
)
    requires
        parent_info(entries, r, fuel) is Some,
        fuel <= more,
    ensures
        parent_info(entries, r, more) == parent_info(entries, r, fuel),
{
    if let Some(found) = lookup(entries, r) {
        lemma_entry_path_needs_no_more(entries, entries[found], fuel, more);
    }
}

/// The entry of record number 5 is the root directory: its path is a slash,
/// whatever its attributes say.
pub proof fn lemma_root_entry_path(entries: Entries, entry: EntryView, fuel: nat)
    requires
        entry.base_entry.entry == 5,
    ensures
        entry_path(entries, entry, fuel) == Some(root_path()),
{
}

/// A reference to record number 5 under which an entry stands names the
/// root directory.
pub proof fn lemma_root_reference_path(entries: Entries, r: MftReference, fuel: nat)
    requires
        is_consistent(entries),
        r.entry == 5,
        entries.contains_key(r),
    ensures
        parent_info(entries, r, fuel) matches Some(info) && info.full_path == root_path()
            && info.reference == Some(r),
{
}

/// A file that only the journal knows of, and whose directory is not found
/// either, stands under the path of the orphans by the name that its latest
/// event gives it.
pub proof fn lemma_journal_only_orphan_path(entries: Entries, entry: EntryView, fuel: nat)
    requires
        entry.base_entry.entry != 5,
        entry.file_name is None,
        entry.journal.len() > 0,
        entry.journal.last().data.spec_parent_reference() != entry.base_entry,
        lookup(entries, entry.journal.last().data.spec_parent_reference()) is None,
    ensures
        entry_path(entries, entry, fuel) == Some(
            join_path(orphan_path(), entry.journal.last().data.spec_filename()),
        ),
{
}

/// A reference that no entry answers to names the directory of the orphans.
pub proof fn lemma_missing_reference_is_orphan(entries: Entries, r: MftReference, fuel: nat)
    requires
        lookup(entries, r) is None,
    ensures
        parent_info(entries, r, fuel) == Some(
            ParentInfoView { full_path: orphan_path(), is_allocated: false, reference: None },
        ),
{
}

/// Where no entry stands under a reference, but an entry that is not
/// allocated stands under the next generation of the same record, the
/// reference names that entry: it has its path.
pub proof fn lemma_deleted_parent_is_found(entries: Entries, r: MftReference, fuel: nat)
    requires
        !entries.contains_key(r),
        r.sequence < u16::MAX,
        entries.contains_key(successor(r)),
        !entries[successor(r)].is_allocated,
    ensures
        lookup(entries, r) == Some(successor(r)),
        parent_info(entries, r, fuel) == match entry_path(entries, entries[successor(r)], fuel) {
            Some(path) => Some(
                ParentInfoView {
                    full_path: path,
                    is_allocated: false,
                    reference: Some(successor(r)),
                },
            ),
            None => None,
        },
{
}

/// The path of a file below a directory that is found: the directory's
/// path, a slash where it does not end in one, and the file's name.
pub proof fn lemma_path_below_parent(entries: Entries, entry: EntryView, fuel: nat)
    requires
        entry.base_entry.entry != 5,
        entry.parent_hint() matches Some(parent) && parent != entry.base_entry && lookup(
            entries,
            parent,
        ) is Some,
        entry_path(entries, entry, fuel) is Some,
    ensures
        fuel > 0,
        entry_path(entries, entry, fuel) == Some(
            join_path(
                entry_path(
                    entries,
                    entries[lookup(entries, entry.parent_hint()->0)->0],
                    (fuel - 1) as nat,
                )->0,
                entry.own_name(),
            ),
        ),
{
}

/// The walk to a path gives one path: asked twice of the same entries, it
/// answers twice the same.
pub proof fn lemma_full_path_is_determined(
    entries: Entries,
    r: MftReference,
    fuel: nat,
    first: ParentInfoView,
    second: ParentInfoView,
)
    requires
        parent_info(entries, r, fuel) == Some(first),
        parent_info(entries, r, fuel) == Some(second),
    ensures
        first == second,
{
}

/// The entry to which the walk from `entry` goes next, if it goes on: the
/// entry that answers to the reference of the parent.
pub open spec fn next_step(entries: Entries, entry: EntryView) -> Option<MftReference> {
    if entry.base_entry.entry == ROOT_ENTRY {
        None
    } else {
        match entry.parent_hint() {
            None => None,
            Some(parent) => {
                if parent == entry.base_entry {
                    None
                } else {
                    lookup(entries, parent)
                }
            },
        }
    }
}

/// The entries that the walk from `entry` visits, in their order, as far
/// as `fuel` steps lead.
pub open spec fn steps(entries: Entries, entry: EntryView, fuel: nat) -> Seq<MftReference>
    decreases fuel,
{
    match next_step(entries, entry) {
        None => Seq::<MftReference>::empty(),
        Some(found) => {
            if fuel == 0 {
                Seq::<MftReference>::empty()
            } else {
                seq![found] + steps(entries, entries[found], (fuel - 1) as nat)
            }
        },
    }
}

/// A walk that comes to its end visits entries only, and no more of them
/// than it may take steps.
pub proof fn lemma_steps_are_entries(entries: Entries, entry: EntryView, fuel: nat)
    requires
        entry_path(entries, entry, fuel) is Some,
    ensures
        steps(entries, entry, fuel).len() <= fuel,
        forall|i: int|
            0 <= i < steps(entries, entry, fuel).len() ==> entries.contains_key(
                #[trigger] steps(entries, entry, fuel)[i],
            ),
    decreases fuel,
{
    if let Some(found) = next_step(entries, entry) {
        lemma_steps_are_entries(entries, entries[found], (fuel - 1) as nat);
        let rest = steps(entries, entries[found], (fuel - 1) as nat);
        assert forall|i: int| 0 <= i < steps(entries, entry, fuel).len() implies entries.contains_key(
            #[trigger] steps(entries, entry, fuel)[i],
        ) by {
            if i > 0 {
                assert(steps(entries, entry, fuel)[i] == rest[i - 1]);
            }
        }
    }
}

/// A walk that comes to its end needs as many steps as it visits entries.
pub proof fn lemma_steps_suffice(entries: Entries, entry: EntryView, fuel: nat)
    requires
        entry_path(entries, entry, fuel) is Some,
    ensures
        entry_path(entries, entry, steps(entries, entry, fuel).len()) == entry_path(
            entries,
            entry,
            fuel,
        ),
    decreases fuel,
{
    if let Some(found) = next_step(entries, entry) {
        lemma_steps_suffice(entries, entries[found], (fuel - 1) as nat);
    }
}

/// A walk that comes to its end visits the same entries with every
/// greater number of steps allowed.
pub proof fn lemma_steps_need_no_more(entries: Entries, entry: EntryView, fuel: nat, more: nat)
    requires
        entry_path(entries, entry, fuel) is Some,
        fuel <= more,
    ensures
        steps(entries, entry, more) == steps(entries, entry, fuel),
    decreases fuel,
{
    if let Some(found) = next_step(entries, entry) {
        lemma_steps_need_no_more(
            entries,
            entries[found],
            (fuel - 1) as nat,
            (more - 1) as nat,
        );
    }
}

/// From an entry that a walk visits, the walk goes on as the walk from
/// that entry: it comes to its end, and visits what the first walk visits
/// from there on.
pub proof fn lemma_steps_go_on(entries: Entries, entry: EntryView, fuel: nat, place: int)
    requires
        entry_path(entries, entry, fuel) is Some,
        0 <= place < steps(entries, entry, fuel).len(),
    ensures
        place < fuel,
        entry_path(
            entries,
            entries[steps(entries, entry, fuel)[place]],
            (fuel - place - 1) as nat,
        ) is Some,
        steps(entries, entries[steps(entries, entry, fuel)[place]], (fuel - place - 1) as nat)
            == steps(entries, entry, fuel).skip(place + 1),
    decreases place,
{
    let found = next_step(entries, entry)->0;
    let rest = steps(entries, entries[found], (fuel - 1) as nat);
    assert(steps(entries, entry, fuel) == seq![found] + rest);
    if place == 0 {
        assert(steps(entries, entry, fuel).skip(1) =~= rest);
    } else {
        lemma_steps_go_on(entries, entries[found], (fuel - 1) as nat, place - 1);
        assert(steps(entries, entry, fuel)[place] == rest[place - 1]);
        assert(steps(entries, entry, fuel).skip(place + 1) =~= rest.skip(place));
    }
}

/// A walk that comes to its end visits no entry twice.
pub proof fn lemma_steps_never_return(entries: Entries, entry: EntryView, fuel: nat)
    requires
        entry_path(entries, entry, fuel) is Some,
    ensures
        steps(entries, entry, fuel).no_duplicates(),
    decreases fuel,
{
    if let Some(found) = next_step(entries, entry) {
        let above = entries[found];
        let rest = steps(entries, above, (fuel - 1) as nat);
        lemma_steps_never_return(entries, above, (fuel - 1) as nat);
        assert forall|j: int| 0 <= j < rest.len() implies rest[j] != found by {
            if rest[j] == found {
                // the walk from `above` would come back to `above`, and from
                // there visit all that it visits again
                lemma_steps_go_on(entries, above, (fuel - 1) as nat, j);
                lemma_steps_need_no_more(
                    entries,
                    above,
                    (fuel - 1 - j - 1) as nat,
                    (fuel - 1) as nat,
                );
                assert(rest.skip(j + 1).len() == rest.len());
            }
        }
        let all = steps(entries, entry, fuel);
        assert(all == seq![found] + rest);
        assert forall|i: int, j: int| 0 <= i < all.len() && 0 <= j < all.len() && i != j implies all[i]
            != all[j] by {
            if i > 0 {
                assert(all[i] == rest[i - 1]);
            }
            if j > 0 {
                assert(all[j] == rest[j - 1]);
            }
        }
    }
}

/// A walk that comes to its end at all comes to its end within as many
/// steps as there are entries: to allow that many steps is to allow
/// every walk that does not go round in a circle.
pub proof fn lemma_entries_bound_the_walk(entries: Entries, entry: EntryView, fuel: nat)
    requires
        entries.dom().finite(),
        entry_path(entries, entry, fuel) is Some,
    ensures
        entry_path(entries, entry, entries.dom().len()) == entry_path(entries, entry, fuel),
{
    let visited = steps(entries, entry, fuel);
    lemma_steps_are_entries(entries, entry, fuel);
    lemma_steps_never_return(entries, entry, fuel);
    lemma_steps_suffice(entries, entry, fuel);
    visited.unique_seq_to_set();
    assert(visited.to_set().subset_of(entries.dom())) by {
        assert forall|r: MftReference| visited.to_set().contains(r) implies entries.dom().contains(
            r,
        ) by {
            let i = choose|i: int| 0 <= i < visited.len() && visited[i] == r;
            assert(entries.contains_key(visited[i]));
        }
    }
    vstd::set_lib::lemma_len_subset(visited.to_set(), entries.dom());
    lemma_entry_path_needs_no_more(entries, entry, visited.len(), entries.dom().len());
}

/// The same of the directory that a reference names.
pub proof fn lemma_entries_bound_the_search(entries: Entries, r: MftReference, fuel: nat)
    requires
        entries.dom().finite(),
        parent_info(entries, r, fuel) is Some,
    ensures
        parent_info(entries, r, entries.dom().len()) == parent_info(entries, r, fuel),
{
    if let Some(found) = lookup(entries, r) {
        lemma_entries_bound_the_walk(entries, entries[found], fuel);
    }
}

} // verus!
