//! Verified core of an auction-image staging service: URL resolution,
//! embedded-data extraction, download/upload naming, bounded admission,
//! and storage-folder allocation.

pub mod digits;
pub mod dispatch;
pub mod download;
pub mod errors;
pub mod json;
pub mod pipeline;
pub mod resolver;
pub mod storage;
pub mod text;

pub use errors::JobError;
