//! A decoder for the FIT activity-log format written by fitness and GPS
//! devices.
//!
//! A file is a header, a run of records and a two-byte checksum. Definition
//! records lay out the fields of the data records that follow them; data
//! records carry the values. The decoder works on bytes that are already in
//! memory and hands the data records out one by one.

pub mod error;
pub mod cursor;
pub mod endian;
pub mod crc;
pub mod record_header;
pub mod file_header;
pub mod definition;
pub mod registry;
pub mod base_type;
pub mod data;
pub mod timestamp;
pub mod session;
pub mod decoder;
