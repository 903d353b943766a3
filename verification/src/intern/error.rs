//! The ways in which records can contradict each other.

use vstd::prelude::*;
use vstd::string::*;
use crate::reference::MftReference;
use crate::text::decimal;
use crate::text::u64_to_string;

verus! {

/// A contradiction among the records of one file.
#[derive(Clone, Copy, Debug, PartialEq, Eq, Structural)]
pub enum NtfsError {
    /// A record was handed to an entry under a reference that is not the
    /// entry's base reference. The reference is the one that was handed in.
    InconsistentBaseReference(MftReference),
    /// The records of the entry hold more than one `$STANDARD_INFORMATION`
    /// attribute.
    MultipleStandardInfo(MftReference),
    /// The entry is allocated and has no `$FILE_NAME` attribute.
    MissingFileNameForAllocated(MftReference),
    /// The walk from parent to parent that leads to a path does not come
    /// to an end: an entry names itself as its parent, or the parents go
    /// round in a circle.
    UnresolvedPath,
}

/// A reference as text: record number, hyphen, sequence number.
pub open spec fn reference_text(r: MftReference) -> Seq<char> {
    decimal(r.entry as nat) + seq!['-'] + decimal(r.sequence as nat)
}

/// Writes a reference as text.
pub fn reference_to_string(r: &MftReference) -> (text: String)
    ensures
        text@ == reference_text(*r),
{
    proof {
        reveal_strlit("-");
        assert("-"@ =~= seq!['-']);
    }
    let mut text = u64_to_string(r.entry);
    text.append("-");
    let sequence = u64_to_string(r.sequence as u64);
    text.append(sequence.as_str());
    text
}

impl NtfsError {
    /// The entry or reference that the error is about.
    pub open spec fn spec_subject(&self) -> Option<MftReference> {
        match self {
            NtfsError::InconsistentBaseReference(r) => Some(*r),
            NtfsError::MultipleStandardInfo(r) => Some(*r),
            NtfsError::MissingFileNameForAllocated(r) => Some(*r),
            NtfsError::UnresolvedPath => None,
        }
    }

    /// What the message says.
    pub open spec fn spec_message(&self) -> Seq<char> {
        match self {
            NtfsError::InconsistentBaseReference(r) => "inconsistent base reference "@
                + reference_text(*r),
            NtfsError::MultipleStandardInfo(r) =>
                "multiple standard information attributes found for $MFT entry "@ + reference_text(
                    *r,
                ),
            NtfsError::MissingFileNameForAllocated(r) =>
                "no $FILE_NAME attribute found for $MFT entry "@ + reference_text(*r),
            NtfsError::UnresolvedPath => "the parents of an $MFT entry lead to no path"@,
        }
    }

    #[verifier::when_used_as_spec(spec_subject)]
    pub fn subject(&self) -> (r: Option<MftReference>)
        ensures
            r == self.spec_subject(),
    {
        match self {
            NtfsError::InconsistentBaseReference(r) => Some(*r),
            NtfsError::MultipleStandardInfo(r) => Some(*r),
            NtfsError::MissingFileNameForAllocated(r) => Some(*r),
            NtfsError::UnresolvedPath => None,
        }
    }

    /// The error in words.
    pub fn message(&self) -> (text: String)
        ensures
            text@ == self.spec_message(),
    {
        let mut text = match self {
            NtfsError::InconsistentBaseReference(_) => String::from_str(
                "inconsistent base reference ",
            ),
            NtfsError::MultipleStandardInfo(_) => String::from_str(
                "multiple standard information attributes found for $MFT entry ",
            ),
            NtfsError::MissingFileNameForAllocated(_) => String::from_str(
                "no $FILE_NAME attribute found for $MFT entry ",
            ),
            NtfsError::UnresolvedPath => String::from_str(
                "the parents of an $MFT entry lead to no path",
            ),
        };
        match self.subject() {
            Some(subject) => {
                let reference = reference_to_string(&subject);
                text.append(reference.as_str());
            },
            None => {},
        }
        text
    }
}

} // verus!
