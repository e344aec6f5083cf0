//! Decoder for a length-prefixed binary framing format that carries one or
//! more typed payloads, each tagged with one or more MIME-type labels.
//!
//! Two ingestion modes are offered. Bulk mode parses a self-describing
//! multi-section stream: a fixed header (magic constant and version byte)
//! followed by tagged sections, where one or more MIME-type sections announce
//! the labels of the content section that follows them. Oneshot mode treats
//! an entire byte buffer as a single untyped payload and pairs it with
//! caller-supplied labels.
//!
//! Both decoders work on a byte buffer that the caller has already read from
//! its transport; acquiring the bytes is outside this crate.

pub mod error;
pub mod item;
pub mod laws;
pub mod recv;
pub mod wire;

pub use error::DecodeError;
pub use item::SourceDataItem;
pub use recv::{read_content, read_mime_types, receive_data_bulk, receive_data_oneshot};
