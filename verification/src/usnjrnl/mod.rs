pub mod usn_reader_error;
pub mod usn_reason;
pub mod usn_record;
pub mod usnjrnl_reader;

pub use usn_reader_error::UsnReaderError;
pub use usn_reason::UsnReason;
pub use usn_reason::UsnReasonValue;
pub use usn_record::BinaryUsnRecordV2;
pub use usn_record::CommonUsnRecord;
pub use usn_record::UsnRecordCommonHeader;
pub use usn_record::UsnRecordData;
pub use usn_record::UsnRecordV2;
pub use usnjrnl_reader::UsnJrnlReader;
