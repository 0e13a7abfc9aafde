//! Multi-version concurrency control: snapshots, transaction status, and the pure
//! predicates that decide what a transaction sees, what it collides with, and what
//! can be reclaimed.

use vstd::prelude::*;

use crate::ids::TxnId;

pub mod conflict;
pub mod isolation;
pub mod reclaim;
pub mod visibility;

pub use conflict::{
    classify_unique_conflict, classify_unique_conflict_among, version_conflicts,
    version_conflicts_among, write_conflict, write_conflict_among, UniqueClaim, UniqueConflict,
    WriteClaim, WriteConflict,
};
pub use reclaim::is_dead_to_all;
pub use visibility::{is_visible, XMAX_ABORTED, XMAX_COMMITTED, XMIN_ABORTED, XMIN_COMMITTED};

verus! {

/// The committed/aborted/in-progress status of a transaction, as recorded by the
/// commit log.
#[derive(Clone, Copy, Debug, PartialEq, Eq, Structural)]
pub enum TxnStatus {
    InProgress,
    Committed,
    Aborted,
}

/// A read-only view of transaction status, used by [`is_visible`] and its siblings.
///
/// Reserved ids below [`FIRST_NORMAL_XID`](crate::ids::FIRST_NORMAL_XID)
/// (including [`FROZEN_XID`](crate::ids::FROZEN_XID)) must read as
/// [`TxnStatus::Committed`]: the allocator never hands them out, and frozen tuples
/// must be visible to every snapshot.
pub trait TxnStatusView {
    /// The status that is on record for `xid`.
    spec fn recorded(&self, xid: TxnId) -> TxnStatus;

    /// The status of `xid` (`Committed`/`Aborted`/`InProgress`).
    fn status(&self, xid: TxnId) -> (status: TxnStatus)
        ensures
            status == self.recorded(xid),
    ;

    /// Whether `xid` is committed. Convenience over [`TxnStatusView::status`].
    fn is_committed(&self, xid: TxnId) -> (committed: bool)
        ensures
            committed == (self.recorded(xid) == TxnStatus::Committed),
    {
        self.status(xid) == TxnStatus::Committed
    }

    /// Whether `xid` is aborted. Convenience over [`TxnStatusView::status`].
    fn is_aborted(&self, xid: TxnId) -> (aborted: bool)
        ensures
            aborted == (self.recorded(xid) == TxnStatus::Aborted),
    {
        self.status(xid) == TxnStatus::Aborted
    }
}

/// A point-in-time view of which transactions are visible, in the Postgres
/// `{xmin, xmax, xip}` style.
///
/// A transaction id is settled (committed or aborted via the commit log) below
/// `xmin`, invisible at or above `xmax` (the future), and in-progress if it appears
/// in `xip`.
#[derive(Clone, Debug, PartialEq, Eq)]
pub struct Snapshot {
    /// Lowest still-running xid; below this, status is settled.
    pub xmin: TxnId,
    /// Next xid to be assigned; `>= xmax` is invisible (the future).
    pub xmax: TxnId,
    /// In-progress xids in `[xmin, xmax)` at snapshot capture.
    pub xip: Vec<TxnId>,
}

impl Snapshot {
    /// A snapshot as a capture leaves it: what was running lies between the bounds.
    pub open spec fn is_capture(self) -> bool {
        &&& self.xmin <= self.xmax
        &&& forall|i: int|
            0 <= i < self.xip@.len() ==> self.xmin <= #[trigger] self.xip@[i] < self.xmax
    }

    /// A degenerate, non-capture placeholder snapshot (`xmin = xmax = 0`, no
    /// in-progress xids).
    ///
    /// Because `xmax = 0`, every transaction id is "in the future" and therefore
    /// invisible under [`is_visible`]; this snapshot sees nothing. Callers that must
    /// see committed rows use [`Snapshot::sees_all_committed`] instead.
    pub fn empty() -> (snapshot: Self)
        ensures
            snapshot.xmin == 0,
            snapshot.xmax == 0,
            snapshot.xip@ == Seq::<TxnId>::empty(),
    {
        Snapshot { xmin: 0, xmax: 0, xip: Vec::new() }
    }

    /// The degenerate "sees all committed" snapshot used by single-writer
    /// autocommit: `xmax = u64::MAX` (no transaction is in the future), no
    /// in-progress xids, so every committed transaction - and the reader's own writes
    /// via the predicate's `current_txn` path - is visible.
    pub fn sees_all_committed() -> (snapshot: Self)
        ensures
            snapshot.xmin == u64::MAX,
            snapshot.xmax == u64::MAX,
            snapshot.xip@ == Seq::<TxnId>::empty(),
    {
        Snapshot { xmin: u64::MAX, xmax: u64::MAX, xip: Vec::new() }
    }

    /// Whether `xid` was in progress when the snapshot was taken.
    pub(crate) fn lists(&self, xid: TxnId) -> (listed: bool)
        ensures
            listed == self.xip@.contains(xid),
    {
        contains_id(&self.xip, xid)
    }
}

/// Whether `xid` is one of the ids.
pub(crate) fn contains_id(ids: &[TxnId], xid: TxnId) -> (found: bool)
    ensures
        found == ids@.contains(xid),
{
    let mut i: usize = 0;
    while i < ids.len()
        invariant
            i <= ids@.len(),
            forall|j: int| 0 <= j < i ==> #[trigger] ids@[j] != xid,
        decreases ids@.len() - i,
    {
        if ids[i] == xid {
            assert(ids@[i as int] == xid);
            return true;
        }
        i += 1;
    }
    false
}

impl Default for Snapshot {
    fn default() -> (snapshot: Self)
        ensures
            snapshot.xmin == 0,
            snapshot.xmax == 0,
            snapshot.xip@ == Seq::<TxnId>::empty(),
    {
        Snapshot::empty()
    }
}

/// Transaction isolation level. `RepeatableRead` is snapshot isolation: one
/// snapshot captured at the first statement and reused. `Serializable` adds
/// conflict tracking on top of that same snapshot.
#[derive(Clone, Copy, Debug, PartialEq, Eq, Structural)]
pub enum IsolationLevel {
    ReadCommitted,
    /// = snapshot isolation.
    RepeatableRead,
    /// Snapshot isolation plus Serializable Snapshot Isolation (SSI): rw-conflict
    /// tracking and dangerous-structure detection on top of the Repeatable Read
    /// snapshot.
    Serializable,
}

impl Default for IsolationLevel {
    /// Postgres' default.
    fn default() -> (level: Self)
        ensures
            level == IsolationLevel::ReadCommitted,
    {
        IsolationLevel::ReadCommitted
    }
}

} // verus!
