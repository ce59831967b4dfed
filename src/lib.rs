//! An owned, validated model of a multi-file diff.
//!
//! The diff engine of git2 hands out patches whose buffers live only as long
//! as the engine's own objects. This crate reads them into plain data: for
//! each file a `Patch`, for each region of change a `Hunk`, and for each side
//! of a hunk a `Block` of contiguous lines. The reading is strict: every
//! malformed record is rejected with a `ParseError`.

pub mod error;
mod git;
pub mod hunk;
pub mod hunk_lemmas;
pub mod patch;
pub mod read;

pub use error::ParseError;
pub use hunk::{Block, Hunk};
pub use patch::Patch;
pub use read::parse_diff;
