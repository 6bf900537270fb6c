//! Progress accounting of downloads.
//!
//! A download reports its source, running byte total, declared total and a
//! final flag to a progress sink. The throughput figure and the sink itself
//! live in the embedding program; what is decided here is the running
//! total, the declared total, and when an in-memory download reports.

use vstd::prelude::*;

verus! {

/// How often an in-memory download reports: about once per 100 MiB.
pub open spec fn report_interval() -> int {
    104857600
}

/// Whether an in-memory download reports after this chunk: exactly when
/// the running total just crossed a multiple of the reporting interval,
/// that is, its remainder is smaller than the chunk that produced it.
pub open spec fn should_report_spec(downloaded: u64, chunk_len: u64) -> bool {
    downloaded as int % report_interval() < chunk_len
}

/// Decide whether an in-memory download reports after this chunk.
pub fn should_report_chunk(downloaded: u64, chunk_len: u64) -> (r: bool)
    ensures
        r == should_report_spec(downloaded, chunk_len),
{
    downloaded % 104857600u64 < chunk_len
}

/// The declared total of a response: its content length, or zero when the
/// response declares none — zero tells a progress sink "total unknown",
/// not "nothing to download".
pub fn total_from_content_length(content_length: Option<u64>) -> (r: u64)
    ensures
        r == match content_length {
            Option::Some(n) => n,
            Option::None => 0u64,
        },
{
    match content_length {
        Option::Some(n) => n,
        Option::None => 0,
    }
}

} // verus!
