//! Incremental encoder for the Server-Sent Events (SSE) wire text format.
//!
//! A message is built field by field directly on a caller-supplied byte sink:
//! a message writer mints one field writer at a time, the field writer streams
//! value bytes through unchanged, and each writer lays down its own terminator
//! when it is closed.

mod format;
mod sink;
mod writer;

pub use format::data_name;
pub use format::event_name;
pub use format::id_name;
pub use format::is_field_name;
pub use format::lemma_message_bytes_is_concat;
pub use format::lemma_messages_back_to_back;
pub use format::lemma_records_bytes_push;
pub use format::lemma_single_field_message;
pub use format::lemma_writes_concatenate;
pub use format::message_bytes;
pub use format::record_bytes;
pub use format::records_bytes;
pub use format::retry_name;
pub use format::COLON;
pub use format::NEWLINE;
pub use sink::write_all;
pub use sink::BoundedSink;
pub use sink::FailSink;
pub use sink::IoError;
pub use sink::Sink;
pub use sink::VecSink;
pub use writer::opens_field;
pub use writer::SseField;
pub use writer::SseMessage;
