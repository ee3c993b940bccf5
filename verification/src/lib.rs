//! A verified byte-level transcoder for delimiter-separated record data.
//!
//! Records are read under one lexical convention (field delimiter, quote,
//! escape discipline, record terminator) and re-emitted under another,
//! without altering field content.

pub mod convention;
pub mod emit;
pub mod scan;
pub mod laws;
pub mod transcode;
