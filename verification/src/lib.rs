//! Streaming reader for SAS Transport (XPORT) files, V5 and V8.
//!
//! The crate parses the 80-byte header cards, the fixed-layout namestr
//! records that describe columns, and the observation rows, and converts
//! numeric cells from IBM System/360 base-16 floating point to IEEE 754
//! bit patterns.  All parsing logic is verified; byte input is handed in
//! by the caller chunk by chunk, so any blocking or asynchronous byte
//! source can drive the same core.

pub mod error;
pub mod ibm;
pub mod cards;
pub mod deserialize;
pub mod numtext;
pub mod part;
pub mod reader;
pub mod text;

pub use deserialize::BufferFromByteArray;
pub use deserialize::FromBytes;
pub use error::XPTError;
pub use numtext::parse_u16_dec;
pub use numtext::parse_u64_dec;
pub use text::TextCodec;
pub use text::decode_text;
pub use text::decoded_text;
pub use text::decodes;
pub use ibm::byte2number;
pub use ibm::number2Byte;
pub use part::ColumnMeta;
pub use part::ColumnType;
pub use part::DocumentBase;
pub use part::DocumentHeader;
pub use part::DocumentMeta;
pub use part::V5MemberTitleHeader;
pub use part::V5NameSt;
pub use part::V5NameStrTitleHeader;
pub use part::V8LabelStrTitleHeader;
pub use part::V8MemberTitleHeader;
pub use part::V8NameSt;
pub use part::V8NameStrTitleHeader;
pub use part::V8ObsHeaderRecord;
pub use part::XptHeader;
pub use reader::RawReader;
pub use reader::Reader;
pub use reader::Val;
