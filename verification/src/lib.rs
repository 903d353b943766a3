//! Reconstruction of the files of an NTFS volume from the records of its
//! `$MFT` and the events of its `$UsnJrnl:$J`, and the lines of a bodyfile
//! that tell of them.
//!
//! The records of one file are gathered into one entry ([`CompleteMftEntry`]):
//! the base record, the records that extend it, and the events of the
//! journal that are about it. The entries of a volume ([`PreprocessedMft`])
//! stand under the references of their base records; there the full path of
//! an entry is found, by the walk from parent to parent. Each entry gives
//! its lines: one of `$STANDARD_INFORMATION`, one of `$FILE_NAME`, and one
//! of each event.
//!
//! - [`record`] holds the records of the `$MFT` as they are read,
//! - [`usnjrnl`] the records of the journal and their decoding from bytes,
//! - [`intern`] the entries, their paths and their lines,
//! - [`task`] the way from records and events to lines,
//! - [`reference`], [`filetime`], [`bytes`], [`text`] and [`vecs`] what the
//!   others are made of.
//!
//! What a function returns is stated over the view of its arguments: an
//! entry is viewed as what it holds ([`intern::complete_mft_entry::EntryView`]),
//! the entries of a volume as a map from references to such views.

pub mod bytes;
pub mod filetime;
pub mod intern;
pub mod record;
pub mod reference;
pub mod task;
pub mod text;
pub mod usnjrnl;
pub mod vecs;

pub use filetime::FileTime;
pub use intern::BodyfileLines;
pub use intern::CompleteMftEntry;
pub use intern::DataAttribute;
pub use intern::FilenameInfo;
pub use intern::NtfsError;
pub use intern::ParentInfo;
pub use intern::PreprocessedMft;
pub use intern::TimestampTuple;
pub use intern::UsnJrnl;
pub use reference::MftReference;
pub use task::BodyfileSink;
pub use task::Mft2BodyfileTask;
