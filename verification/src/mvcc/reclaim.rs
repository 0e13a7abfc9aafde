//! VACUUM reclaimability oracle (`is_dead_to_all`).

use vstd::prelude::*;

use crate::ids::{TxnId, INVALID_XID};
use crate::mvcc::visibility::{self, XMAX_COMMITTED, XMIN_ABORTED};
use crate::mvcc::{Snapshot, TxnStatus, TxnStatusView};

verus! {

/// A version is dead to every snapshot if its creator aborted, or if its deletion
/// committed before the oldest snapshot in use.
pub open spec fn dead_to_all<S: TxnStatusView>(
    xmin: TxnId,
    xmax: TxnId,
    infomask: u16,
    horizon: TxnId,
    view: S,
) -> bool {
    ||| infomask & XMIN_ABORTED != 0
    ||| view.recorded(xmin) == TxnStatus::Aborted
    ||| xmax != INVALID_XID && xmax < horizon && (infomask & XMAX_COMMITTED != 0 || view.recorded(
        xmax,
    ) == TxnStatus::Committed)
}

/// The pure VACUUM **reclaimability** predicate: is a version with creator `xmin` and
/// deleter `xmax` *dead to every possible snapshot* - and therefore safe to physically
/// reclaim - given the GC `horizon` (the minimum `xmin` advertised by any live
/// snapshot)?
///
/// A version is reclaimable iff **either**:
///
/// - **its creator aborted** - `XMIN_ABORTED` hint, or `status(xmin) == Aborted`.
///   No snapshot can ever see an aborted creator, so there is no age requirement. **or**
/// - **it is committed-deleted below the horizon** - `xmax != INVALID_XID` **and**
///   the delete is settled-committed (`XMAX_COMMITTED` hint, or
///   `status(xmax) == Committed`) **and** `xmax < horizon` (strict): a delete with
///   `xmax >= horizon` may still fall in some live snapshot's future/in-progress set,
///   so that snapshot still sees the row as *live*.
///
/// Everything else is **not (yet) reclaimable**: a live committed version
/// (`xmax == INVALID_XID`); an aborted or in-progress delete; and a committed delete
/// with `xmax >= horizon`.
///
/// **Hint bits** short-circuit the probe: `XMIN_ABORTED` settles the aborted-creator
/// branch and `XMAX_COMMITTED` settles the committed-delete branch, each without
/// calling [`TxnStatusView::status`].
pub fn is_dead_to_all<S: TxnStatusView>(
    xmin: TxnId,
    xmax: TxnId,
    infomask: u16,
    horizon: TxnId,
    status: &S,
) -> (dead: bool)
    ensures
        dead == dead_to_all(xmin, xmax, infomask, horizon, *status),
{
    // Aborted-creator branch (no horizon gate).
    if infomask & XMIN_ABORTED != 0 {
        return true;
    }
    // Committed-delete branch, before the (potential) probe of `xmin`, so that a hint
    // decides without consulting the view.
    if xmax != INVALID_XID && xmax < horizon && (infomask & XMAX_COMMITTED != 0 || status.status(
        xmax,
    ) == TxnStatus::Committed) {
        return true;
    }
    status.status(xmin) == TxnStatus::Aborted
}

/// What can be reclaimed is visible to no snapshot at or after the horizon, held by any
/// transaction but the creator itself.
pub proof fn reclaimed_versions_are_invisible<S: TxnStatusView>(
    xmin: TxnId,
    xmax: TxnId,
    infomask: u16,
    horizon: TxnId,
    snapshot: Snapshot,
    current_txn: TxnId,
    view: S,
)
    requires
        visibility::hints_agree(xmin, xmax, infomask, view),
        dead_to_all(xmin, xmax, infomask, horizon, view),
        snapshot.is_capture(),
        horizon <= snapshot.xmin,
        current_txn != xmin,
    ensures
        !visibility::visible(xmin, xmax, infomask, snapshot, current_txn, view),
{
    if view.recorded(xmin) != TxnStatus::Aborted && snapshot.xip@.contains(xmax) {
        let i = choose|i: int| 0 <= i < snapshot.xip@.len() && snapshot.xip@[i] == xmax;
        assert(snapshot.xmin <= snapshot.xip@[i]);
    }
}

/// What is reclaimable at one horizon stays so at every later one.
pub proof fn reclaimability_grows_with_the_horizon<S: TxnStatusView>(
    xmin: TxnId,
    xmax: TxnId,
    infomask: u16,
    horizon: TxnId,
    later: TxnId,
    view: S,
)
    requires
        horizon <= later,
        dead_to_all(xmin, xmax, infomask, horizon, view),
    ensures
        dead_to_all(xmin, xmax, infomask, later, view),
{
}

/// Hint bits that agree with the record do not change what can be reclaimed.
pub proof fn hints_do_not_change_reclaimability<S: TxnStatusView>(
    xmin: TxnId,
    xmax: TxnId,
    infomask: u16,
    horizon: TxnId,
    view: S,
)
    requires
        visibility::hints_agree(xmin, xmax, infomask, view),
    ensures
        dead_to_all(xmin, xmax, infomask, horizon, view) == dead_to_all(
            xmin,
            xmax,
            0,
            horizon,
            view,
        ),
{
    visibility::lemma_no_hints();
}

} // verus!
