//! Verified core of a small clip-downloading utility.
//!
//! The library computes everything the tool decides on its own: how the
//! trim range is parsed, how the intermediate download filename is derived
//! from the requested output path, how a quality percentage is read, whether
//! a transcode step is needed, and the exact argument lists handed to the
//! external downloader and transcoder. Running those external processes is
//! left to a thin unverified front end.

pub mod commands;
pub mod naming;
pub mod plan;
pub mod quality;
pub mod trim;

pub use trim::trim_parser;
