//! Precompression of static assets: configuration parsing, job dispatch,
//! buffered encoding and statistics for a worker pool that writes one
//! compressed sibling per enabled codec next to every eligible file.

pub mod algorithm;
pub mod buffer;
pub mod codec;
pub mod config;
pub mod dispatch;
pub mod encode;
pub mod path;
pub mod quality;
pub mod report;
pub mod run;
pub mod stats;
pub mod text;
pub mod worker;
