//! Tuple-visibility predicate (`is_visible`) and the `infomask` hint-bit
//! constants it consults.

use vstd::prelude::*;

use crate::ids::{TxnId, INVALID_XID};
use crate::mvcc::{Snapshot, TxnStatus, TxnStatusView};

verus! {

/// `infomask` hint bits that cache settled status in the tuple header, so the
/// visibility predicate can skip a probe of the commit log.
///
/// ```text
/// bit 0: XMIN_COMMITTED  bit 1: XMIN_ABORTED
/// bit 2: XMAX_COMMITTED  bit 3: XMAX_ABORTED
/// ```
///
/// `xmin` is settled-committed (skip the probe for the creator).
pub const XMIN_COMMITTED: u16 = 1;

/// `xmin` is settled-aborted (the creator's version is never visible).
pub const XMIN_ABORTED: u16 = 2;

/// `xmax` is settled-committed (the deleter committed; the version may be hidden).
pub const XMAX_COMMITTED: u16 = 4;

/// `xmax` is settled-aborted (the delete never happened; it cannot hide the row).
pub const XMAX_ABORTED: u16 = 8;

/// The status that a hint or else the record gives a transaction.
pub open spec fn settled(committed_hint: bool, aborted_hint: bool, recorded: TxnStatus) -> TxnStatus {
    if committed_hint {
        TxnStatus::Committed
    } else if aborted_hint {
        TxnStatus::Aborted
    } else {
        recorded
    }
}

/// The status of the creator of a version.
pub open spec fn creator_status<S: TxnStatusView>(xmin: TxnId, infomask: u16, view: S) -> TxnStatus {
    settled(
        infomask & XMIN_COMMITTED != 0,
        infomask & XMIN_ABORTED != 0,
        view.recorded(xmin),
    )
}

/// The status of the deleter of a version.
pub open spec fn deleter_status<S: TxnStatusView>(xmax: TxnId, infomask: u16, view: S) -> TxnStatus {
    settled(
        infomask & XMAX_COMMITTED != 0,
        infomask & XMAX_ABORTED != 0,
        view.recorded(xmax),
    )
}

/// A transaction's effect is visible to the transaction that wrote it, and to every
/// snapshot that was taken after it committed.
pub open spec fn effect_visible(
    xid: TxnId,
    status: TxnStatus,
    snapshot: Snapshot,
    current_txn: TxnId,
) -> bool {
    xid == current_txn || (xid < snapshot.xmax && !snapshot.xip@.contains(xid) && status
        == TxnStatus::Committed)
}

/// A version is visible if its creation is and its deletion, if any, is not.
pub open spec fn visible<S: TxnStatusView>(
    xmin: TxnId,
    xmax: TxnId,
    infomask: u16,
    snapshot: Snapshot,
    current_txn: TxnId,
    view: S,
) -> bool {
    &&& effect_visible(xmin, creator_status(xmin, infomask, view), snapshot, current_txn)
    &&& xmax == INVALID_XID || !effect_visible(
        xmax,
        deleter_status(xmax, infomask, view),
        snapshot,
        current_txn,
    )
}

/// The hint bits of a version say what is on record.
pub open spec fn hints_agree<S: TxnStatusView>(
    xmin: TxnId,
    xmax: TxnId,
    infomask: u16,
    view: S,
) -> bool {
    &&& infomask & XMIN_COMMITTED != 0 ==> view.recorded(xmin) == TxnStatus::Committed
    &&& infomask & XMIN_ABORTED != 0 ==> view.recorded(xmin) == TxnStatus::Aborted
    &&& infomask & XMAX_COMMITTED != 0 ==> view.recorded(xmax) == TxnStatus::Committed
    &&& infomask & XMAX_ABORTED != 0 ==> view.recorded(xmax) == TxnStatus::Aborted
}

/// Whether transaction `xid` that created (or deleted) a version is **visible** to
/// the transaction holding `snapshot` - i.e. its effect is settled-and-in-the-past
/// from that snapshot's perspective.
///
/// `committed_hint`/`aborted_hint` are the already-resolved infomask hint bits for
/// `xid`: a settled hint short-circuits the [`TxnStatusView`] probe.
fn txn_effect_visible<S: TxnStatusView>(
    xid: TxnId,
    snapshot: &Snapshot,
    current_txn: TxnId,
    status: &S,
    committed_hint: bool,
    aborted_hint: bool,
) -> (seen: bool)
    ensures
        seen == effect_visible(
            xid,
            settled(committed_hint, aborted_hint, status.recorded(xid)),
            *snapshot,
            current_txn,
        ),
{
    // Own write: my uncommitted effects are visible to me regardless of the record.
    if xid == current_txn {
        return true;
    }
    // The future (allocated at or after my snapshot) is never visible.
    if xid >= snapshot.xmax {
        return false;
    }
    // In-progress at snapshot capture: not yet committed from my perspective.
    if snapshot.lists(xid) {
        return false;
    }
    // Settled-status decision: prefer the infomask hint, else probe the record.
    if committed_hint {
        return true;
    }
    if aborted_hint {
        return false;
    }
    status.status(xid) == TxnStatus::Committed
}

/// The pure tuple-visibility predicate.
///
/// A version with creator `xmin` and deleter `xmax` is visible to the transaction
/// `current_txn` holding `snapshot` iff:
///
/// 1. **Creator is visible** - `xmin` is `current_txn` (own write), or it is
///    settled-committed and in the snapshot's past (`xmin < snapshot.xmax`,
///    `xmin` not in `snapshot.xip`, `status(xmin) == Committed`). If the creator is
///    in-progress, aborted, or in the future, the version is invisible.
/// 2. **Deleter does not hide it** - `xmax` is invalid/zero (the version is live),
///    or `xmax` is *not* visible by the same test (the delete is in the future,
///    in-progress to others, or aborted). If `xmax` **is** visible (a committed,
///    past delete) the version is hidden.
///
/// **Own-delete (`xmax == current_txn`):** because an own write is visible, a delete
/// I performed *does* hide the row from me.
///
/// **Hint bits** short-circuit the probe: if `infomask` records
/// `XMIN_COMMITTED`/`XMIN_ABORTED` (resp. `XMAX_*`), that settled status is used
/// instead of calling [`TxnStatusView::status`] for that xid.
pub fn is_visible<S: TxnStatusView>(
    xmin: TxnId,
    xmax: TxnId,
    infomask: u16,
    snapshot: &Snapshot,
    current_txn: TxnId,
    status: &S,
) -> (seen: bool)
    ensures
        seen == visible(xmin, xmax, infomask, *snapshot, current_txn, *status),
{
    // 1. Creator must be visible, else the version never existed for me.
    let creator_visible: bool = txn_effect_visible(
        xmin,
        snapshot,
        current_txn,
        status,
        infomask & XMIN_COMMITTED != 0,
        infomask & XMIN_ABORTED != 0,
    );
    if !creator_visible {
        return false;
    }
    // 2. A live row (no deleter) is visible. Otherwise the delete hides the row
    //    exactly when the deleter itself is visible (settled-committed in my past,
    //    or my own delete).
    if xmax == INVALID_XID {
        return true;
    }
    let deleter_visible: bool = txn_effect_visible(
        xmax,
        snapshot,
        current_txn,
        status,
        infomask & XMAX_COMMITTED != 0,
        infomask & XMAX_ABORTED != 0,
    );
    !deleter_visible
}

/// No bit is set in an empty mask.
pub proof fn lemma_no_hints()
    ensures
        0u16 & XMIN_COMMITTED == 0,
        0u16 & XMIN_ABORTED == 0,
        0u16 & XMAX_COMMITTED == 0,
        0u16 & XMAX_ABORTED == 0,
{
    assert(0u16 & 1u16 == 0) by (bit_vector);
    assert(0u16 & 2u16 == 0) by (bit_vector);
    assert(0u16 & 4u16 == 0) by (bit_vector);
    assert(0u16 & 8u16 == 0) by (bit_vector);
}

/// Hint bits that agree with the record do not change what is visible.
pub proof fn hints_do_not_change_visibility<S: TxnStatusView>(
    xmin: TxnId,
    xmax: TxnId,
    infomask: u16,
    snapshot: Snapshot,
    current_txn: TxnId,
    view: S,
)
    requires
        hints_agree(xmin, xmax, infomask, view),
    ensures
        visible(xmin, xmax, infomask, snapshot, current_txn, view) == visible(
            xmin,
            xmax,
            0,
            snapshot,
            current_txn,
            view,
        ),
{
    lemma_no_hints();
}

/// A transaction sees the versions that it created, until it deletes them.
pub proof fn own_writes_are_visible<S: TxnStatusView>(
    xmax: TxnId,
    infomask: u16,
    snapshot: Snapshot,
    current_txn: TxnId,
    view: S,
)
    requires
        current_txn != INVALID_XID,
    ensures
        visible(current_txn, INVALID_XID, infomask, snapshot, current_txn, view),
        !visible(current_txn, current_txn, infomask, snapshot, current_txn, view),
{
}

/// The empty snapshot shows a transaction its own writes and nothing else.
pub proof fn empty_snapshot_sees_nothing<S: TxnStatusView>(
    xmin: TxnId,
    xmax: TxnId,
    infomask: u16,
    snapshot: Snapshot,
    current_txn: TxnId,
    view: S,
)
    requires
        snapshot.xmax == 0,
        xmin != current_txn,
    ensures
        !visible(xmin, xmax, infomask, snapshot, current_txn, view),
{
}

/// The snapshot that sees all committed work shows a version exactly if its creator
/// is committed and its deleter, if any, is not, of all ids that are ever assigned.
pub proof fn full_snapshot_sees_what_is_committed<S: TxnStatusView>(
    xmin: TxnId,
    xmax: TxnId,
    infomask: u16,
    snapshot: Snapshot,
    current_txn: TxnId,
    view: S,
)
    requires
        snapshot.xmax == u64::MAX,
        snapshot.xip@ == Seq::<TxnId>::empty(),
        xmin < u64::MAX,
        xmax < u64::MAX,
        xmin != current_txn,
        xmax != current_txn,
    ensures
        visible(xmin, xmax, infomask, snapshot, current_txn, view) == (creator_status(
            xmin,
            infomask,
            view,
        ) == TxnStatus::Committed && (xmax == INVALID_XID || deleter_status(xmax, infomask, view)
            != TxnStatus::Committed)),
{
}

} // verus!
