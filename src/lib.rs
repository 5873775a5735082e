//! Fetches a published package release, unpacks it and applies a unified
//! diff to the unpacked tree. The decisions of that pipeline are verified
//! here; the filesystem, network and version-control work is done by the
//! caller on the plans and actions this library returns.
pub mod args;
pub mod paths;
pub mod archive;
pub mod pipeline;
pub mod config;
