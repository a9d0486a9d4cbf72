//! Decoder for HWP compound binary documents: a CFB-style container of
//! named streams, per-stream deflate compression, and a tag/level/size
//! record format assembled into a typed document model.

pub mod bytes_le;
pub mod cfb;
pub mod compression;
pub mod ctrl_id;
pub mod errors;
pub mod fill_type;
pub mod laws;
pub mod models;
pub mod parser;
pub mod reader;
pub mod stdx;
pub mod tag_id;
pub mod text_extractor;
pub mod validator;
pub mod version;

pub use parser::parse;

use vstd::prelude::*;

verus! {

} // verus!
