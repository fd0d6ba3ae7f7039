//! A growable, contiguous container layered on a capacity-tracking buffer,
//! with a byte-oriented value type on top of it.
//!
//! * [`mem_utils`]: layout arithmetic and the operations on a block of slots.
//! * [`chunks`]: [`Chunks`], the buffer that knows which slots are populated.
//! * [`vector`]: [`Vector`], the growable array.
//! * [`growth`]: what the growth rule amounts to over a run of appends.
//! * [`bytes`]: [`Bytes`] and its renderings as text and as an integer.

pub mod bytes;
pub mod chunks;
pub mod growth;
pub mod mem_utils;
pub mod vector;

pub use bytes::{Bin, Bins, Bytes, Hex};
pub use chunks::Chunks;
pub use mem_utils::{ArrayLayout, MemError};
pub use vector::{ConsecConstrucor, Vector};
