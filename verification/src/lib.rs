//! Core logic of a toolchain installer: platform-triple resolution,
//! release-manifest handling, component change-set resolution, a
//! transactional installer over a modelled installation prefix, a
//! verified download cache, and the decision policy of an adaptive
//! disk-I/O execution engine.

pub mod changeset;
pub mod cli;
pub mod config;
pub mod diskio;
pub mod dist;
pub mod download;
pub mod errors;
pub mod laws;
pub mod manifest;
pub mod manifestation;
pub mod mock;
pub mod notifications;
pub mod pool;
pub mod prefix;
pub mod process;
pub mod protocol;
pub mod settings;
pub mod strutil;
pub mod telemetry;
pub mod toml_io;
pub mod transaction;
