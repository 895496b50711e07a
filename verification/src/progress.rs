//! Progress of an upload. The file is read in chunks; reporting every chunk
//! would flood whoever polls the status, so one report in ten is sent, and
//! always the last.

use vstd::prelude::*;
use crate::protocol::Response;

verus! {

/// Whether a report is due once `offset` bytes have been read, the last read
/// having returned `chunk` bytes, out of `total`.
pub open spec fn progress_due(offset: int, chunk: int, total: int) -> bool {
    (offset / chunk) % 10 == 0 || offset == total
}

/// How far the reading of a file of `total` bytes has come.
#[derive(Clone, Copy, Debug, PartialEq, Eq, Structural)]
pub struct Progress {
    pub offset: u64,
    pub total: u64,
}

impl Progress {
    /// A file of `total` bytes of which none has been read.
    pub fn new(total: u64) -> (p: Progress)
        ensures
            p.offset == 0,
            p.total == total,
    {
        Progress { offset: 0, total }
    }

    /// Accounts for a read that returned `chunk` bytes and hands back the
    /// report to send for it, if one is due: the number of bytes read so far,
    /// and the size of the file. The read must have returned something, since
    /// the rule divides by its size, and the count must fit.
    pub fn read(&mut self, chunk: u64) -> (report: Option<Response>)
        requires
            chunk > 0,
            old(self).offset + chunk <= u64::MAX,
        ensures
            final(self).total == old(self).total,
            final(self).offset == old(self).offset + chunk,
            report == if progress_due(
                old(self).offset + chunk,
                chunk as int,
                old(self).total as int,
            ) {
                Some(
                    Response::UploadStatus {
                        current_size: (old(self).offset + chunk) as u64,
                        total_size: old(self).total,
                    },
                )
            } else {
                None
            },
    {
        self.offset = self.offset + chunk;
        if (self.offset / chunk) % 10 == 0 || self.offset == self.total {
            Some(Response::UploadStatus { current_size: self.offset, total_size: self.total })
        } else {
            None
        }
    }
}

/// Where every chunk has the same size, the `k`-th chunk of `n` is reported
/// exactly when `k` is a multiple of ten or `k` is the last.
pub proof fn lemma_equal_chunks(chunk: int, n: int, k: int)
    requires
        chunk > 0,
        1 <= k <= n,
    ensures
        progress_due(k * chunk, chunk, n * chunk) <==> (k % 10 == 0 || k == n),
{
    assert((k * chunk) / chunk == k) by (nonlinear_arith)
        requires
            chunk > 0,
    ;
    assert(k * chunk == n * chunk <==> k == n) by (nonlinear_arith)
        requires
            chunk > 0,
    ;
}

} // verus!
