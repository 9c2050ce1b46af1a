//! Batch image conversion engine: file collection and classification, the
//! native decode/resize/encode pipeline with metadata carry-over, the staged
//! fallback chain for camera RAW formats, a bounded concurrency gate, and the
//! batch progress bookkeeping.

pub mod batch;
pub mod collect;
pub mod config;
pub mod dims;
pub mod exif;
pub mod limiter;
pub mod paths;
pub mod pipeline;
pub mod raw_chain;
