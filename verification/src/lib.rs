//! Verified core of a decoder for data dumps collected by an embedded
//! self-writing data logger.
//!
//! The library covers the logic whose correctness is subtle: detection of
//! continuous recording chains in an ordered page list, reconstruction of the
//! interleaved two-channel sample sequence of a page, classification of pages
//! as reportable / corrupted / no-data, and the naming scheme of the output
//! artifacts. Reading the raw dump, deserializing the configuration and
//! writing the report files is plain I/O and lives outside the library.

pub mod chains;
pub mod input;
pub mod page;
pub mod reconstruct;
pub mod report;
pub mod settings;
