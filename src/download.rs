//! What a download reports and how it is configured.
use vstd::prelude::*;
use crate::bytes::{ascii_of, decimal, literal, push_decimal};

verus! {

/// The outcome of a download.
#[derive(Clone, Debug)]
pub struct DownloadReport {
    /// Destination path that was written to.
    pub path: String,
    /// Offset the download resumed from (0 for a fresh download).
    pub resumed_from: u64,
    /// Bytes written by this download.
    pub bytes_written: u64,
}

impl DownloadReport {
    /// Bytes now on disk.
    pub fn total_bytes(&self) -> (r: u64)
        requires
            self.resumed_from + self.bytes_written <= u64::MAX,
        ensures
            r == self.resumed_from + self.bytes_written,
    {
        self.resumed_from + self.bytes_written
    }
}

/// How a download behaves.
#[derive(Clone, Copy, Debug, PartialEq, Eq, Structural)]
pub struct DownloadOptions {
    /// Resume when the destination already holds data.
    pub resume_existing: bool,
}

impl DownloadOptions {
    /// Resuming is on.
    pub fn new() -> (r: DownloadOptions)
        ensures
            r.resume_existing,
    {
        DownloadOptions { resume_existing: true }
    }
}

impl Default for DownloadOptions {
    fn default() -> (r: DownloadOptions)
        ensures
            r.resume_existing,
    {
        DownloadOptions { resume_existing: true }
    }
}

/// The `Range` value that asks for the rest of a file of which `existing`
/// bytes are on disk: `bytes=<existing>-`, or none for an empty file.
pub fn range_value(existing: u64) -> (r: Option<Vec<u8>>)
    ensures
        existing == 0 ==> r is None,
        existing > 0 ==> (r matches Some(v) && v@ == ascii_of("bytes="@) + decimal(existing as nat)
            + ascii_of("-"@)),
{
    proof {
        reveal_strlit("bytes=");
        reveal_strlit("-");
    }
    if existing == 0 {
        return None;
    }
    let mut v = literal("bytes=");
    push_decimal(&mut v, existing);
    crate::bytes::append_bytes(&mut v, literal("-").as_slice());
    Some(v)
}

/// Where the download writes from, once the status is known: an error
/// carrying the status unless it is 2xx; the existing length where the
/// server sent `206 Partial Content` for a range; otherwise the start.
pub fn resume_offset(existing: u64, status: u16) -> (r: Result<u64, u16>)
    ensures
        !(200 <= status < 300) ==> r == Err::<u64, u16>(status),
        200 <= status < 300 ==> r == Ok::<u64, u16>(
            if existing > 0 && status == 206 {
                existing
            } else {
                0
            },
        ),
{
    if !(200 <= status && status < 300) {
        return Err(status);
    }
    if existing > 0 && status == 206 {
        Ok(existing)
    } else {
        Ok(0)
    }
}

} // verus!
