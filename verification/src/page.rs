//! The library's model of one unpacked flash page.
//!
//! The external unpacker slices the raw dump into pages, verifies each page's
//! CRC and hands over a header plus two channels of raw frequency records.
//! The decoding decisions read only the header words, the consistency flag
//! and the two record counts; the raw frequencies themselves are
//! floating-point payload consumed by the (unverified) calibration
//! arithmetic, so a reconstructed sample refers to records by index.

use vstd::prelude::*;

verus! {

/// Header identity and geometry of one page, as the decoding logic reads it.
///
/// `fp_len` and `ft_len` are the number of raw records of the pressure and
/// temperature channel; the records themselves stay with the caller.
#[derive(Debug, Clone, Copy)]
pub struct Page {
    /// Block id of this page; `0` together with `prev_block_id == 0` marks a
    /// session start, `u32::MAX` marks a no-data sentinel.
    pub this_block_id: u32,
    /// Block id of the preceding page of the same session.
    pub prev_block_id: u32,
    /// Wall-clock time of the page's first sample, in ms since session zero.
    pub timestamp: u64,
    /// Base tick interval in ms; sample `i` lies `i * base_interval_ms` after
    /// `timestamp`.
    pub base_interval_ms: u32,
    /// Sampling divisor of the pressure channel: a fresh pressure record is
    /// due every `interleave_p` base ticks.
    pub interleave_p: u32,
    /// Sampling divisor of the temperature channel.
    pub interleave_t: u32,
    /// CRC of the page's payload, as recorded in the header.
    pub data_crc32: u32,
    /// True when the page's payload matched its CRC.
    pub consistent: bool,
    /// Number of raw records in the pressure channel.
    pub fp_len: usize,
    /// Number of raw records in the temperature channel.
    pub ft_len: usize,
}

/// A page whose block id and previous-block id are both zero opens a new
/// recording session.
pub open spec fn spec_is_session_start(this_block_id: u32, prev_block_id: u32) -> bool {
    this_block_id == 0 && prev_block_id == 0
}

impl Page {
    /// True when this page opens a new recording session.
    pub fn is_session_start(&self) -> (r: bool)
        ensures
            r == spec_is_session_start(self.this_block_id, self.prev_block_id),
    {
        self.this_block_id == 0 && self.prev_block_id == 0
    }
}

} // verus!
