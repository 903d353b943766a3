pub mod bodyfile_lines;
pub mod complete_mft_entry;
pub mod error;
pub mod event_order;
pub mod filename_info;
pub mod line;
pub mod paths;
pub mod preprocessed_mft;
pub mod timestamp_tuple;
pub mod usnjrnl;

pub use bodyfile_lines::BodyfileLines;
pub use complete_mft_entry::CompleteMftEntry;
pub use complete_mft_entry::DataAttribute;
pub use error::NtfsError;
pub use filename_info::FilenameInfo;
pub use preprocessed_mft::ParentInfo;
pub use preprocessed_mft::PreprocessedMft;
pub use timestamp_tuple::TimestampTuple;
pub use usnjrnl::UsnJrnl;
