//! The typed document model and the framed-record value type.

pub mod document;
pub mod header;
pub mod paragraph;
pub mod record;
pub mod section;
