//! The bodyfile lines of one entry.
//!
//! An entry gives a line for its `$STANDARD_INFORMATION`, a line for its
//! `$FILE_NAME`, and a line for each event of the journal: in this order,
//! the events from the latest to the earliest.

use vstd::prelude::*;
use vstd::string::*;
use crate::intern::complete_mft_entry::CompleteMftEntry;
use crate::intern::complete_mft_entry::DATA_ATTRIBUTE_ID;
use crate::intern::complete_mft_entry::EntryView;
use crate::intern::complete_mft_entry::INDEX_ROOT_ATTRIBUTE_ID;
use crate::intern::error::reference_text;
use crate::intern::error::reference_to_string;
use crate::intern::line::bodyfile3_line;
use crate::intern::line::lemma_line_bars;
use crate::intern::line::line_text;
use crate::intern::line::zero;
use crate::intern::paths::Entries;
use crate::intern::paths::ParentInfoView;
use crate::intern::paths::entry_path;
use crate::intern::paths::parent_info;
use crate::intern::paths::successor;
use crate::intern::preprocessed_mft::ParentInfo;
use crate::intern::preprocessed_mft::PreprocessedMft;
use crate::intern::timestamp_tuple::TimestampTuple;
use crate::intern::timestamp_tuple::Timestamps;
use crate::intern::timestamp_tuple::clamped_seconds;
use crate::reference::MftReference;
use crate::text::contains_text;
use crate::text::count_char;
use crate::text::decimal;
use crate::text::lemma_contains_text_middle;
use crate::text::lemma_count_char_add;
use crate::text::lemma_count_char_single;
use crate::text::lemma_decimal_has_digits_only;
use crate::text::signed_decimal;
use crate::text::u64_to_string;
use crate::usnjrnl::usn_reason::reason_text;
use crate::usnjrnl::usn_record::CommonUsnRecord;

verus! {

/// The instance that the inode names where no attribute gives one.
pub const DEFAULT_INSTANCE: u16 = 1;

/// The inode of a line: record number, attribute type and instance, with
/// hyphens between them.
pub open spec fn inode_text(entry: EntryView, instance: u16) -> Seq<char> {
    decimal(entry.base_entry.entry as nat) + seq!['-'] + decimal(entry.attribute_id() as nat)
        + seq!['-'] + decimal(instance as nat)
}

/// The name field of a line: what the line shows of the file, and the mark
/// of deletion where the file is not allocated.
pub open spec fn name_field(entry: EntryView, display: Seq<char>) -> Seq<char> {
    display + entry.deletion_status()
}

/// A line of `entry` that shows `display` as its name and `times` as its
/// times: the time of access, of modification, of the change of the MFT
/// record, and of creation.
pub open spec fn formatted(
    entry: EntryView,
    display: Seq<char>,
    times: Timestamps,
    instance: u16,
) -> Seq<char> {
    line_text(
        name_field(entry, display),
        inode_text(entry, instance),
        zero(),
        entry.filesize() as int,
        times.accessed,
        times.modified,
        times.mft_modified,
        times.created,
    )
}

/// What the line of `$STANDARD_INFORMATION` shows as its name: the path.
pub open spec fn si_display(path: Seq<char>) -> Seq<char> {
    path
}

/// What the line of `$FILE_NAME` shows as its name.
pub open spec fn fn_display(path: Seq<char>) -> Seq<char> {
    path + " ($FILE_NAME)"@
}

/// The times of the line of an event: the time of the event as the time of
/// access, and 0 for the times that an event does not record.
pub open spec fn event_times(event: CommonUsnRecord) -> Timestamps {
    Timestamps {
        accessed: clamped_seconds(event.data.spec_timestamp()),
        mft_modified: 0,
        modified: 0,
        created: 0,
    }
}

/// The note of the name in an event: left out where the event names the
/// file as the MFT does.
pub open spec fn filename_note(entry: EntryView, event: CommonUsnRecord) -> Seq<char> {
    if entry.file_name matches Some(name) && name.filename == event.data.spec_filename() {
        Seq::<char>::empty()
    } else {
        " filename="@ + event.data.spec_filename()
    }
}

/// The note of the directory in an event.
///
/// It is left out where the directory that the event names is found under
/// that very reference, or under the next generation of the same record
/// where that is not allocated. Where it is found elsewhere the note gives
/// both references and the path; where it is not found, the path alone.
pub open spec fn parent_note(parent: MftReference, info: ParentInfoView) -> Seq<char> {
    match info.reference {
        Some(found) => {
            if found == parent {
                Seq::<char>::empty()
            } else if !info.is_allocated && parent.sequence < u16::MAX && found == successor(
                parent,
            ) {
                Seq::<char>::empty()
            } else {
                " parent="@ + reference_text(found) + "/"@ + reference_text(parent) + "/'"@
                    + info.full_path + "'"@
            }
        },
        None => " parent='"@ + info.full_path + "'"@,
    }
}

/// The note of the reasons of an event.
pub open spec fn reason_note(event: CommonUsnRecord, long_names: bool) -> Seq<char> {
    " reason="@ + reason_text(event.data.spec_reason().value(), long_names)
}

/// What the line of an event shows as its name: the path, and in brackets
/// the notes of the event.
pub open spec fn event_display(
    path: Seq<char>,
    entry: EntryView,
    event: CommonUsnRecord,
    info: ParentInfoView,
    long_names: bool,
) -> Seq<char> {
    path + " ($UsnJrnl"@ + filename_note(entry, event) + parent_note(
        event.data.spec_parent_reference(),
        info,
    ) + reason_note(event, long_names) + ")"@
}

/// The line of an event, if the walk to the path of its directory comes to
/// an end.
pub open spec fn event_line(
    entries: Entries,
    entry: EntryView,
    path: Seq<char>,
    event: CommonUsnRecord,
    long_names: bool,
    fuel: nat,
) -> Option<Seq<char>> {
    match parent_info(entries, event.data.spec_parent_reference(), fuel) {
        Some(info) => Some(
            formatted(
                entry,
                event_display(path, entry, event, info, long_names),
                event_times(event),
                1,
            ),
        ),
        None => None,
    }
}

/// The lines of the first `count` events, in the order of the events.
#[verifier::opaque]
pub open spec fn event_lines(
    entries: Entries,
    entry: EntryView,
    path: Seq<char>,
    long_names: bool,
    fuel: nat,
    count: int,
) -> Option<Seq<Seq<char>>>
    decreases count,
{
    if count <= 0 {
        Some(Seq::<Seq<char>>::empty())
    } else {
        match (
            event_lines(entries, entry, path, long_names, fuel, count - 1),
            event_line(entries, entry, path, entry.journal[count - 1], long_names, fuel),
        ) {
            (Some(lines), Some(line)) => Some(lines.push(line)),
            _ => None,
        }
    }
}

/// The line of `$STANDARD_INFORMATION`, if the entry has its times.
pub open spec fn si_lines(entry: EntryView, path: Seq<char>) -> Seq<Seq<char>> {
    match entry.standard_info {
        Some(times) => seq![formatted(entry, si_display(path), times, 1)],
        None => Seq::<Seq<char>>::empty(),
    }
}

/// The line of `$FILE_NAME`, if the entry has a name.
pub open spec fn fn_lines(entry: EntryView, path: Seq<char>) -> Seq<Seq<char>> {
    match entry.file_name {
        Some(name) => seq![formatted(entry, fn_display(path), name.timestamps, name.instance_id)],
        None => Seq::<Seq<char>>::empty(),
    }
}

/// The lines of an entry in the order in which they are given out, if the
/// walks to the paths that they show come to an end.
pub open spec fn entry_lines(entries: Entries, entry: EntryView, long_names: bool, fuel: nat) -> Option<
    Seq<Seq<char>>,
> {
    match entry_path(entries, entry, fuel) {
        Some(path) => match event_lines(
            entries,
            entry,
            path,
            long_names,
            fuel,
            entry.journal.len() as int,
        ) {
            Some(of_events) => Some(
                si_lines(entry, path) + fn_lines(entry, path) + of_events.reverse(),
            ),
            None => None,
        },
        None => None,
    }
}

/// The text of a line.
pub open spec fn text_of() -> spec_fn(String) -> Seq<char> {
    |line: String| line@
}

/// The lines of one entry that are still to be given out.
#[derive(Debug)]
pub struct BodyfileLines {
    standard_info: Option<String>,
    filename_info: Option<String>,
    usnjrnl_records: Vec<String>,
}

impl View for BodyfileLines {
    type V = Seq<Seq<char>>;

    /// The lines that are left, the next one first.
    closed spec fn view(&self) -> Seq<Seq<char>> {
        (match self.standard_info {
            Some(line) => seq![line@],
            None => Seq::<Seq<char>>::empty(),
        }) + (match self.filename_info {
            Some(line) => seq![line@],
            None => Seq::<Seq<char>>::empty(),
        }) + self.usnjrnl_records@.map_values(text_of()).reverse()
    }
}

impl BodyfileLines {
    /// Gives the next line out, if one is left.
    pub fn next(&mut self) -> (line: Option<String>)
        ensures
            match line {
                Some(text) => old(self)@.len() > 0 && text@ == old(self)@[0] && final(self)@ == old(
                    self,
                )@.drop_first(),
                None => old(self)@.len() == 0 && final(self)@ == old(self)@,
            },
    {
        if self.standard_info.is_some() {
            let line = self.standard_info.take();
            assert(self@ =~= old(self)@.drop_first());
            return line;
        }
        if self.filename_info.is_some() {
            let line = self.filename_info.take();
            assert(self@ =~= old(self)@.drop_first());
            return line;
        }
        let ghost texts = self.usnjrnl_records@.map_values(text_of());
        let line = self.usnjrnl_records.pop();
        proof {
            if line is Some {
                assert(self.usnjrnl_records@.map_values(text_of()) =~= texts.drop_last());
                assert(texts.drop_last().reverse() =~= texts.reverse().drop_first());
                assert(old(self)@ =~= texts.reverse());
                assert(self@ =~= texts.drop_last().reverse());
            } else {
                assert(self@ =~= old(self)@);
            }
        }
        line
    }

    /// The number of lines that are left.
    pub fn remaining(&self) -> (count: usize)
        ensures
            count == if self@.len() <= usize::MAX {
                self@.len()
            } else {
                usize::MAX as nat
            },
    {
        let of_attributes: usize = (match &self.standard_info {
            Some(_) => 1,
            None => 0,
        }) + (match &self.filename_info {
            Some(_) => 1,
            None => 0,
        });
        of_attributes.saturating_add(self.usnjrnl_records.len())
    }
}

/// Writes the note of the directory in an event.
pub fn parent_annotation(parent: &MftReference, info: &ParentInfo) -> (note: String)
    ensures
        note@ == parent_note(*parent, info@),
{
    match &info.reference {
        Some(found) => {
            if *found == *parent {
                String::new()
            } else if !info.is_allocated && parent.sequence < u16::MAX && *found
                == MftReference::new(parent.entry, parent.sequence + 1) {
                String::new()
            } else {
                let mut note = String::from_str(" parent=");
                let found_text = reference_to_string(found);
                note.append(found_text.as_str());
                note.append("/");
                let parent_text = reference_to_string(parent);
                note.append(parent_text.as_str());
                note.append("/'");
                note.append(info.full_path.as_str());
                note.append("'");
                note
            }
        },
        None => {
            let mut note = String::from_str(" parent='");
            note.append(info.full_path.as_str());
            note.append("'");
            note
        },
    }
}

impl CompleteMftEntry {
    /// The attribute type in the inode of the entry's lines.
    pub fn attribute_id(&self) -> (id: u32)
        ensures
            id == self@.attribute_id(),
    {
        if self.is_directory() {
            INDEX_ROOT_ATTRIBUTE_ID
        } else {
            DATA_ATTRIBUTE_ID
        }
    }

    /// The mark behind the name of a file that is not allocated.
    pub fn deletion_status(&self) -> (mark: &'static str)
        ensures
            mark@ == self@.deletion_status(),
    {
        if self.is_allocated() {
            proof {
                reveal_strlit("");
                assert(""@ =~= Seq::<char>::empty());
            }
            ""
        } else {
            " (deleted)"
        }
    }

    fn format(&self, display_name: String, timestamps: &TimestampTuple, instance_id: u16) -> (line:
        String)
        ensures
            line@ == formatted(self@, display_name@, timestamps@, instance_id),
    {
        proof {
            reveal_strlit("-");
            reveal_strlit("0");
            assert("-"@ =~= seq!['-']);
            assert("0"@ =~= zero());
        }
        let mut name = display_name;
        name.append(self.deletion_status());
        let mut inode = u64_to_string(self.base_entry().entry);
        inode.append("-");
        let attribute = u64_to_string(self.attribute_id() as u64);
        inode.append(attribute.as_str());
        inode.append("-");
        let instance = u64_to_string(instance_id as u64);
        inode.append(instance.as_str());
        bodyfile3_line(
            name,
            inode,
            "0",
            self.filesize(),
            timestamps.accessed(),
            timestamps.modified(),
            timestamps.mft_modified(),
            timestamps.created(),
        )
    }

    fn format_fn(&self, path: &String) -> (line: Option<String>)
        ensures
            match line {
                Some(text) => fn_lines(self@, path@) == seq![text@],
                None => fn_lines(self@, path@).len() == 0,
            },
    {
        match self.filename_info() {
            Some(fn_attr) => {
                let mut display = path.clone();
                display.append(" ($FILE_NAME)");
                Some(self.format(display, fn_attr.timestamps(), fn_attr.instance_id()))
            },
            None => None,
        }
    }

    fn format_si(&self, path: &String) -> (line: Option<String>)
        ensures
            match line {
                Some(text) => si_lines(self@, path@) == seq![text@],
                None => si_lines(self@, path@).len() == 0,
            },
    {
        match self.standard_info_timestamps() {
            Some(si) => Some(self.format(path.clone(), si, DEFAULT_INSTANCE)),
            None => None,
        }
    }

    /// The name of the file in the MFT, if it has one there.
    fn mft_filename(&self) -> (name: Option<&String>)
        ensures
            match name {
                Some(text) => self@.file_name matches Some(info) && info.filename == text@,
                None => self@.file_name is None,
            },
    {
        match self.filename_info() {
            Some(fni) => Some(fni.filename()),
            None => None,
        }
    }

    fn format_usnjrnl(
        &self,
        mft: &PreprocessedMft,
        path: &String,
        record: &CommonUsnRecord,
        usnjrnl_longflags: bool,
    ) -> (line: Option<String>)
        requires
            mft.wf(),
        ensures
            match line {
                Some(text) => event_line(
                    mft@,
                    self@,
                    path@,
                    *record,
                    usnjrnl_longflags,
                    mft.budget(),
                ) == Some(text@),
                None => event_line(mft@, self@, path@, *record, usnjrnl_longflags, mft.budget())
                    is None,
            },
    {
        let parent = record.data.parent_reference();
        let parent_info = match mft.try_get_full_path(&parent) {
            Some(info) => info,
            None => {
                return None;
            },
        };
        let mut display_name = path.clone();
        display_name.append(" ($UsnJrnl");
        let same_name = match self.mft_filename() {
            None => false,
            Some(f) => *f == *record.data.filename(),
        };
        if !same_name {
            display_name.append(" filename=");
            display_name.append(record.data.filename().as_str());
        }
        let parent_note = parent_annotation(&parent, &parent_info);
        display_name.append(parent_note.as_str());
        display_name.append(" reason=");
        let reasons = record.data.reason().text(usnjrnl_longflags);
        display_name.append(reasons.as_str());
        display_name.append(")");
        proof {
            let note = filename_note(self@, *record);
            let info = parent_info@;
            assert(display_name@ =~= event_display(path@, self@, *record, info, usnjrnl_longflags));
        }
        let times = TimestampTuple::from_event(&record.data.timestamp());
        Some(self.format(display_name, &times, DEFAULT_INSTANCE))
    }

    /// The lines of the entry, if the walks to the paths that they show
    /// come to an end.
    pub fn try_bodyfile_lines(&self, mft: &PreprocessedMft, usnjrnl_longflags: bool) -> (lines:
        Option<BodyfileLines>)
        requires
            mft.wf(),
            self.wf(),
        ensures
            match lines {
                Some(l) => entry_lines(mft@, self@, usnjrnl_longflags, mft.budget()) == Some(l@),
                None => entry_lines(mft@, self@, usnjrnl_longflags, mft.budget()) is None,
            },
    {
        match mft.path_within(self, mft.len()) {
            Some(path) => self.lines_below(mft, path, usnjrnl_longflags),
            None => None,
        }
    }

    /// The lines of the entry, given its full path.
    pub(crate) fn lines_below(&self, mft: &PreprocessedMft, path: String, usnjrnl_longflags: bool) -> (lines:
        Option<BodyfileLines>)
        requires
            mft.wf(),
            self.wf(),
            entry_path(mft@, self@, mft.budget()) == Some(path@),
        ensures
            match lines {
                Some(l) => entry_lines(mft@, self@, usnjrnl_longflags, mft.budget()) == Some(l@),
                None => entry_lines(mft@, self@, usnjrnl_longflags, mft.budget()) is None,
            },
    {
        let events = self.usnjrnl_records();
        let mut of_events: Vec<String> = Vec::new();
        let mut at: usize = 0;
        proof {
            lemma_event_lines_start(mft@, self@, path@, usnjrnl_longflags, mft.budget());
            assert(of_events@.map_values(text_of()) =~= Seq::<Seq<char>>::empty());
        }
        while at < events.len()
            invariant
                at <= events@.len(),
                events@ == self@.journal,
                mft.wf(),
                entry_path(mft@, self@, mft.budget()) == Some(path@),
                event_lines(mft@, self@, path@, usnjrnl_longflags, mft.budget(), at as int) == Some(
                    of_events@.map_values(text_of()),
                ),
            decreases events@.len() - at,
        {
            match self.format_usnjrnl(mft, &path, &events[at], usnjrnl_longflags) {
                Some(line) => {
                    proof {
                        of_events@.lemma_push_map_commute(text_of(), line);
                        lemma_event_lines_step(
                            mft@,
                            self@,
                            path@,
                            usnjrnl_longflags,
                            mft.budget(),
                            at as int,
                            of_events@.map_values(text_of()),
                            line@,
                        );
                    }
                    of_events.push(line);
                },
                None => {
                    proof {
                        lemma_event_lines_fail_at(
                            mft@,
                            self@,
                            path@,
                            usnjrnl_longflags,
                            mft.budget(),
                            at as int,
                        );
                        lemma_event_lines_fail_on(
                            mft@,
                            self@,
                            path@,
                            usnjrnl_longflags,
                            mft.budget(),
                            at as int + 1,
                            events@.len() as int,
                        );
                    }
                    return None;
                },
            }
            at += 1;
        }
        Some(
            BodyfileLines {
                standard_info: self.format_si(&path),
                filename_info: self.format_fn(&path),
                usnjrnl_records: of_events,
            },
        )
    }

    /// The lines of the entry.
    pub fn bodyfile_lines(&self, mft: &PreprocessedMft, usnjrnl_longflags: bool) -> (lines:
        BodyfileLines)
        requires
            mft.wf(),
            self.wf(),
            entry_lines(mft@, self@, usnjrnl_longflags, mft.budget()) is Some,
        ensures
            entry_lines(mft@, self@, usnjrnl_longflags, mft.budget()) == Some(lines@),
    {
        self.try_bodyfile_lines(mft, usnjrnl_longflags).unwrap()
    }

    /// The full path of the entry, if the walk to it comes to an end.
    pub fn try_get_full_path(&self, mft: &PreprocessedMft) -> (path: Option<String>)
        requires
            mft.wf(),
            self.wf(),
        ensures
            match path {
                Some(p) => entry_path(mft@, self@, mft.budget()) == Some(p@),
                None => !mft.resolves_entry(self@),
            },
    {
        mft.path_within(self, mft.len())
    }

    /// The full path of the entry.
    ///
    /// The root directory has the path of one slash. Another entry stands
    /// below its directory, by the name and the directory that its
    /// `$FILE_NAME` attribute gives it; without such an attribute, by those
    /// of its latest event; without an event, by a made-up name alone.
    pub fn get_full_path(&self, mft: &PreprocessedMft) -> (path: String)
        requires
            mft.wf(),
            self.wf(),
            mft.resolves_entry(self@),
        ensures
            entry_path(mft@, self@, mft.budget()) == Some(path@),
    {
        mft.path_within(self, mft.len()).unwrap()
    }
}

/// The lines of one more event are the lines before and the line of that
/// event.
pub proof fn lemma_event_lines_step(
    entries: Entries,
    entry: EntryView,
    path: Seq<char>,
    long_names: bool,
    fuel: nat,
    count: int,
    lines: Seq<Seq<char>>,
    line: Seq<char>,
)
    requires
        0 <= count,
        event_lines(entries, entry, path, long_names, fuel, count) == Some(lines),
        event_line(entries, entry, path, entry.journal[count], long_names, fuel) == Some(line),
    ensures
        event_lines(entries, entry, path, long_names, fuel, count + 1) == Some(lines.push(line)),
{
    reveal(event_lines);
}

/// Of no events there are no lines.
pub proof fn lemma_event_lines_start(
    entries: Entries,
    entry: EntryView,
    path: Seq<char>,
    long_names: bool,
    fuel: nat,
)
    ensures
        event_lines(entries, entry, path, long_names, fuel, 0) == Some(Seq::<Seq<char>>::empty()),
{
    reveal(event_lines);
}

/// Where an event has no line, the events up to it have not all theirs.
pub proof fn lemma_event_lines_fail_at(
    entries: Entries,
    entry: EntryView,
    path: Seq<char>,
    long_names: bool,
    fuel: nat,
    count: int,
)
    requires
        0 <= count,
        event_line(entries, entry, path, entry.journal[count], long_names, fuel) is None,
    ensures
        event_lines(entries, entry, path, long_names, fuel, count + 1) is None,
{
    reveal(event_lines);
}

/// Where the lines of the first `count` events are not all there, those of
/// more events are not all there either.
pub proof fn lemma_event_lines_fail_on(
    entries: Entries,
    entry: EntryView,
    path: Seq<char>,
    long_names: bool,
    fuel: nat,
    count: int,
    more: int,
)
    requires
        event_lines(entries, entry, path, long_names, fuel, count) is None,
        count <= more,
    ensures
        event_lines(entries, entry, path, long_names, fuel, more) is None,
    decreases more - count,
{
    reveal(event_lines);
    if count < more {
        lemma_event_lines_fail_on(entries, entry, path, long_names, fuel, count, more - 1);
    }
}

/// Whether `line` is a line of `entry`: it shows some name, the inode of
/// some instance, and four times of which none is negative.
pub open spec fn is_line_of(entry: EntryView, line: Seq<char>) -> bool {
    exists|display: Seq<char>, times: Timestamps, instance: u16|
        times.valid() && line == #[trigger] formatted(entry, display, times, instance)
}

/// The lines of the events are as many as the events, and each is the line
/// of its event.
pub proof fn lemma_event_lines_are_event_lines(
    entries: Entries,
    entry: EntryView,
    path: Seq<char>,
    long_names: bool,
    fuel: nat,
    count: int,
)
    requires
        0 <= count,
        event_lines(entries, entry, path, long_names, fuel, count) is Some,
    ensures
        event_lines(entries, entry, path, long_names, fuel, count)->0.len() == count,
        forall|i: int|
            0 <= i < count ==> event_line(
                entries,
                entry,
                path,
                #[trigger] entry.journal[i],
                long_names,
                fuel,
            ) == Some(event_lines(entries, entry, path, long_names, fuel, count)->0[i]),
    decreases count,
{
    reveal(event_lines);
    if count > 0 {
        lemma_event_lines_are_event_lines(entries, entry, path, long_names, fuel, count - 1);
    }
}

/// The times of the line of an event are valid: none is negative.
pub proof fn lemma_event_times_valid(event: CommonUsnRecord)
    ensures
        event_times(event).valid(),
{
}

/// The lines of an entry stand in this order: the line of
/// `$STANDARD_INFORMATION`, the line of `$FILE_NAME`, and the lines of the
/// events from the latest event to the earliest.
pub proof fn lemma_lines_order(entries: Entries, entry: EntryView, long_names: bool, fuel: nat)
    requires
        entry_lines(entries, entry, long_names, fuel) is Some,
    ensures
        ({
            let lines = entry_lines(entries, entry, long_names, fuel)->0;
            let path = entry_path(entries, entry, fuel)->0;
            let of_attributes = si_lines(entry, path).len() + fn_lines(entry, path).len();
            &&& entry_path(entries, entry, fuel) is Some
            &&& lines.len() == entry.line_count()
            &&& entry.standard_info matches Some(times) ==> lines[0] == formatted(
                entry,
                si_display(path),
                times,
                1,
            )
            &&& entry.file_name matches Some(name) ==> lines[si_lines(entry, path).len() as int]
                == formatted(entry, fn_display(path), name.timestamps, name.instance_id)
            &&& forall|k: int|
                0 <= k < entry.journal.len() ==> event_line(
                    entries,
                    entry,
                    path,
                    #[trigger] entry.journal[entry.journal.len() - 1 - k],
                    long_names,
                    fuel,
                ) == Some(lines[of_attributes + k])
        }),
{
    let path = entry_path(entries, entry, fuel)->0;
    let count = entry.journal.len() as int;
    lemma_event_lines_are_event_lines(entries, entry, path, long_names, fuel, count);
    let of_events = event_lines(entries, entry, path, long_names, fuel, count)->0;
    let lines = entry_lines(entries, entry, long_names, fuel)->0;
    let of_attributes = si_lines(entry, path).len() + fn_lines(entry, path).len();
    assert forall|k: int| 0 <= k < entry.journal.len() implies event_line(
        entries,
        entry,
        path,
        #[trigger] entry.journal[entry.journal.len() - 1 - k],
        long_names,
        fuel,
    ) == Some(lines[of_attributes + k]) by {
        assert(lines[of_attributes + k] == of_events.reverse()[k]);
        assert(of_events.reverse()[k] == of_events[count - 1 - k]);
    }
}

/// Every line of a valid entry is a line of that entry: it is made as all
/// lines are, and none of its times is negative.
pub proof fn lemma_lines_are_lines_of_entry(
    entries: Entries,
    entry: EntryView,
    long_names: bool,
    fuel: nat,
    i: int,
)
    requires
        entry.valid(),
        entry_lines(entries, entry, long_names, fuel) is Some,
        0 <= i < entry_lines(entries, entry, long_names, fuel)->0.len(),
    ensures
        is_line_of(entry, entry_lines(entries, entry, long_names, fuel)->0[i]),
{
    let path = entry_path(entries, entry, fuel)->0;
    let lines = entry_lines(entries, entry, long_names, fuel)->0;
    let of_attributes = si_lines(entry, path).len() + fn_lines(entry, path).len();
    lemma_lines_order(entries, entry, long_names, fuel);
    if i < si_lines(entry, path).len() {
        assert(lines[i] == formatted(entry, si_display(path), entry.standard_info->0, 1));
    } else if i < of_attributes {
        let name = entry.file_name->0;
        assert(lines[i] == formatted(entry, fn_display(path), name.timestamps, name.instance_id));
    } else {
        let k = i - of_attributes;
        let event = entry.journal[entry.journal.len() - 1 - k];
        assert(event_line(entries, entry, path, event, long_names, fuel) == Some(lines[i]));
        let info = parent_info(entries, event.data.spec_parent_reference(), fuel)->0;
        lemma_event_times_valid(event);
        assert(lines[i] == formatted(
            entry,
            event_display(path, entry, event, info, long_names),
            event_times(event),
            1,
        ));
    }
}

/// The inode of a line holds no bar.
pub proof fn lemma_inode_has_no_bar(entry: EntryView, instance: u16)
    ensures
        count_char(inode_text(entry, instance), '|') == 0,
{
    let a = decimal(entry.base_entry.entry as nat);
    let b = decimal(entry.attribute_id() as nat);
    let c = decimal(instance as nat);
    lemma_decimal_has_digits_only(entry.base_entry.entry as nat, '|');
    lemma_decimal_has_digits_only(entry.attribute_id() as nat, '|');
    lemma_decimal_has_digits_only(instance as nat, '|');
    lemma_count_char_single('-', '|');
    lemma_count_char_add(a, seq!['-'], '|');
    lemma_count_char_add(a + seq!['-'], b, '|');
    lemma_count_char_add(a + seq!['-'] + b, seq!['-'], '|');
    lemma_count_char_add(a + seq!['-'] + b + seq!['-'], c, '|');
}

/// The mark of deletion holds no bar.
pub proof fn lemma_deletion_status_has_no_bar(entry: EntryView)
    ensures
        count_char(entry.deletion_status(), '|') == 0,
{
    if !entry.is_allocated {
        reveal_strlit(" (deleted)");
        let mark = " (deleted)"@;
        assert(mark =~= seq![' ', '(', 'd', 'e', 'l', 'e', 't', 'e', 'd', ')']);
        lemma_no_bar_among(mark);
    }
}

/// A text of which no character is a bar holds no bar.
pub proof fn lemma_no_bar_among(text: Seq<char>)
    requires
        forall|i: int| 0 <= i < text.len() ==> text[i] != '|',
    ensures
        count_char(text, '|') == 0,
    decreases text.len(),
{
    if text.len() > 0 {
        lemma_no_bar_among(text.drop_last());
    }
}

/// A line has eleven fields: it holds the ten bars that part them, and no
/// bar besides but those in what it shows as the name.
pub proof fn lemma_formatted_bars(
    entry: EntryView,
    display: Seq<char>,
    times: Timestamps,
    instance: u16,
)
    ensures
        count_char(formatted(entry, display, times, instance), '|') == 10 + count_char(
            display,
            '|',
        ),
{
    lemma_line_bars(
        name_field(entry, display),
        inode_text(entry, instance),
        zero(),
        entry.filesize() as int,
        times.accessed,
        times.modified,
        times.mft_modified,
        times.created,
    );
    lemma_inode_has_no_bar(entry, instance);
    lemma_deletion_status_has_no_bar(entry);
    lemma_count_char_add(display, entry.deletion_status(), '|');
    lemma_count_char_single('0', '|');
}

/// The lines of `$STANDARD_INFORMATION` and of `$FILE_NAME` hold ten bars
/// and no more, where the path holds none.
pub proof fn lemma_attribute_lines_have_ten_bars(entry: EntryView, path: Seq<char>)
    requires
        count_char(path, '|') == 0,
    ensures
        entry.standard_info matches Some(times) ==> count_char(
            formatted(entry, si_display(path), times, 1),
            '|',
        ) == 10,
        entry.file_name matches Some(name) ==> count_char(
            formatted(entry, fn_display(path), name.timestamps, name.instance_id),
            '|',
        ) == 10,
{
    if let Some(times) = entry.standard_info {
        lemma_formatted_bars(entry, si_display(path), times, 1);
    }
    if let Some(name) = entry.file_name {
        lemma_formatted_bars(entry, fn_display(path), name.timestamps, name.instance_id);
        reveal_strlit(" ($FILE_NAME)");
        let suffix = " ($FILE_NAME)"@;
        assert(suffix =~= seq![' ', '(', '$', 'F', 'I', 'L', 'E', '_', 'N', 'A', 'M', 'E', ')']);
        lemma_no_bar_among(suffix);
        lemma_count_char_add(path, suffix, '|');
    }
}

/// Every line of a file that is not allocated shows the mark of deletion
/// at the end of its name.
pub proof fn lemma_deleted_mark(
    entry: EntryView,
    display: Seq<char>,
    times: Timestamps,
    instance: u16,
)
    requires
        !entry.is_allocated,
    ensures
        name_field(entry, display) == display + " (deleted)"@,
        contains_text(formatted(entry, display, times, instance), " (deleted)"@),
{
    let mark = " (deleted)"@;
    let before = zero() + crate::intern::line::bar() + display;
    let after = crate::intern::line::bar() + inode_text(entry, instance) + crate::intern::line::bar()
        + zero() + crate::intern::line::bar() + zero() + crate::intern::line::bar() + zero()
        + crate::intern::line::bar() + decimal(entry.filesize() as nat)
        + crate::intern::line::bar() + signed_decimal(times.accessed)
        + crate::intern::line::bar() + signed_decimal(times.modified)
        + crate::intern::line::bar() + signed_decimal(times.mft_modified)
        + crate::intern::line::bar() + signed_decimal(times.created);
    lemma_contains_text_middle(before, mark, after);
    assert(formatted(entry, display, times, instance) =~= before + mark + after);
}

/// Every line of an entry that is not allocated holds the mark of deletion.
pub proof fn lemma_lines_of_deleted_entry(entry: EntryView, line: Seq<char>)
    requires
        !entry.is_allocated,
        is_line_of(entry, line),
    ensures
        contains_text(line, " (deleted)"@),
{
    let (display, times, instance) = choose|display: Seq<char>, times: Timestamps, instance: u16|
        times.valid() && line == #[trigger] formatted(entry, display, times, instance);
    lemma_deleted_mark(entry, display, times, instance);
}

/// The four times of a line are written without a sign: none is negative.
pub proof fn lemma_line_times(entry: EntryView, line: Seq<char>)
    requires
        is_line_of(entry, line),
    ensures
        exists|name: Seq<char>, inode: Seq<char>, atime: int, mtime: int, ctime: int, crtime: int|
            0 <= atime && 0 <= mtime && 0 <= ctime && 0 <= crtime && signed_decimal(atime)
                == decimal(atime as nat) && signed_decimal(mtime) == decimal(mtime as nat)
                && signed_decimal(ctime) == decimal(ctime as nat) && signed_decimal(crtime)
                == decimal(crtime as nat) && line == #[trigger] line_text(
                name,
                inode,
                zero(),
                entry.filesize() as int,
                atime,
                mtime,
                ctime,
                crtime,
            ),
{
    let (display, times, instance) = choose|display: Seq<char>, times: Timestamps, instance: u16|
        times.valid() && line == #[trigger] formatted(entry, display, times, instance);
    assert(line == line_text(
        name_field(entry, display),
        inode_text(entry, instance),
        zero(),
        entry.filesize() as int,
        times.accessed,
        times.modified,
        times.mft_modified,
        times.created,
    ));
}

} // verus!
