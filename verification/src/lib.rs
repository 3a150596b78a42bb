//! Recursive unpacking of nested archives into a flat stream of records.
//!
//! A stream of unknown content is named by its first bytes, handed to the
//! reader of its format, and every entry that the reader finds is unpacked
//! in turn. What turns out not to be a container, or not to be the
//! container it was taken for, is emitted as a leaf: one record with the
//! path that led to it, its metadata, and its bytes.

pub mod adapters;
pub mod errors;
pub mod filetype;
pub mod guards;
pub mod laws;
pub mod meta;
pub mod outcome;
pub mod pipe;
pub mod record;
pub mod simple_time;
pub mod slist;
pub mod stat;
pub mod tee;
pub mod text;
pub mod toplevel;
pub mod unpacker;
pub mod walk;
