//! Result-projection layer over an external desktop file-search index.
//!
//! The library owns the pure logic of the pipeline: formatting raw byte
//! counts and 100-nanosecond-tick timestamps into display strings,
//! decomposing full paths into directory / file name / extension, and
//! projecting raw index hits into typed result records. The index engine
//! itself is an external collaborator reached over IPC; talking to it is
//! left to the surrounding application.

pub mod calendar;
pub mod human;
pub mod pathsplit;
pub mod query;
pub mod record;
