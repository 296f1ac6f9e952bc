//! Bytes Frequency-Based Chunking (BFBC): a streaming boundary detector for
//! content-defined chunking. Fed bytes incrementally, it reports the offset of
//! the first position where the sliding two-byte window matches one of a fixed
//! set of frequent byte pairs, once a minimum chunk size has been reached.

pub mod detector;
pub mod laws;

pub use crate::detector::BFBCChunker;
