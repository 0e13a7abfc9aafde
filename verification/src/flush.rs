//! When dirty pages may be written.

use vstd::prelude::*;

use crate::error::Result;
use crate::ids::Lsn;

verus! {

#[derive(Clone, Copy, Debug, PartialEq, Eq)]
pub struct PageFlushInfo {
    pub dirty_txn_id: u64,
    pub page_lsn: Option<Lsn>,
}

pub trait FlushPolicy: Send + Sync {
    fn can_flush(&self, info: &PageFlushInfo) -> bool;

    /// Make every WAL record durable up to the present, so a dirty page about to be
    /// written to its home satisfies write-ahead logging (its describing records are
    /// on disk before the page is). Called by the buffer pool's eviction (steal)
    /// path before it flushes a stolen dirty page.
    ///
    /// An uncommitted page may be stolen, and its records are not yet flushed, so the
    /// steal must force the WAL first. The default is a no-op for policies with no
    /// WAL.
    fn ensure_durable(&self) -> (result: Result<()>)
        default_ensures
            result is Ok,
    {
        Ok(())
    }
}

} // verus!
