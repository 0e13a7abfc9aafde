//! What snapshots, statuses and hint bits mean for a version: the laws of isolation.
//!
//! Bits 0 to 3 of the mask of a version say, in this order, that its creator committed,
//! that its creator aborted, that its deleter committed, and that its deleter aborted.

use vstd::prelude::*;

use crate::ids::TxnId;
use crate::mvcc::conflict::{
    unique_claim, unique_conflict_of, write_claim, write_conflict_of, UniqueClaim, UniqueConflict,
    WriteClaim, WriteConflict,
};
use crate::mvcc::reclaim::dead_to_all;
use crate::mvcc::visibility::{self, visible};
use crate::mvcc::{Snapshot, TxnStatus, TxnStatusView};

verus! {

/// Two transactions that are both running at the capture of a snapshot do not see each
/// other: a version whose creator is any of the transactions that the snapshot lists is
/// invisible to every other transaction, whatever became of its creator.
pub proof fn versions_of_running_transactions_are_invisible<S: TxnStatusView>(
    i: int,
    xmax: TxnId,
    infomask: u16,
    snapshot: Snapshot,
    current_txn: TxnId,
    view: S,
)
    requires
        0 <= i < snapshot.xip@.len(),
        snapshot.xip@[i] != current_txn,
    ensures
        !visible(snapshot.xip@[i], xmax, infomask, snapshot, current_txn, view),
{
    assert(snapshot.xip@.contains(snapshot.xip@[i]));
}

/// A delete by any of the transactions that a snapshot lists hides nothing from another
/// transaction: the version is as visible as if it had not been deleted.
pub proof fn deletes_by_running_transactions_do_not_hide<S: TxnStatusView>(
    i: int,
    xmin: TxnId,
    infomask: u16,
    snapshot: Snapshot,
    current_txn: TxnId,
    view: S,
)
    requires
        0 <= i < snapshot.xip@.len(),
        snapshot.xip@[i] != current_txn,
    ensures
        visible(xmin, snapshot.xip@[i], infomask, snapshot, current_txn, view) == visible(
            xmin,
            0,
            infomask,
            snapshot,
            current_txn,
            view,
        ),
{
    assert(snapshot.xip@.contains(snapshot.xip@[i]));
}

/// What a snapshot shows is fixed at its capture. It stays the same when the records of
/// the reader itself, of transactions that were running, and of transactions that began
/// later change in any way, and when any other transaction turns from running to
/// aborted or back.
pub proof fn later_changes_of_status_are_not_seen<S: TxnStatusView, T: TxnStatusView>(
    xmin: TxnId,
    xmax: TxnId,
    infomask: u16,
    snapshot: Snapshot,
    current_txn: TxnId,
    before: S,
    after: T,
)
    requires
        forall|xid: TxnId|
            {
                ||| xid == current_txn
                ||| xid >= snapshot.xmax
                ||| exists|i: int| 0 <= i < snapshot.xip@.len() && snapshot.xip@[i] == xid
                ||| (#[trigger] before.recorded(xid) == TxnStatus::Committed) == (
                #[trigger] after.recorded(xid) == TxnStatus::Committed)
            },
    ensures
        visible(xmin, xmax, infomask, snapshot, current_txn, before) == visible(
            xmin,
            xmax,
            infomask,
            snapshot,
            current_txn,
            after,
        ),
{
    assert(before.recorded(xmin) == before.recorded(xmin));
    assert(after.recorded(xmin) == after.recorded(xmin));
    assert(before.recorded(xmax) == before.recorded(xmax));
    assert(after.recorded(xmax) == after.recorded(xmax));
}

/// Of a transaction that began at or after the capture of a snapshot, neither what it
/// created nor what it deleted is seen by another transaction.
pub proof fn the_future_is_invisible<S: TxnStatusView>(
    xid: TxnId,
    other: TxnId,
    infomask: u16,
    snapshot: Snapshot,
    current_txn: TxnId,
    view: S,
)
    requires
        snapshot.xmax <= xid,
        xid != current_txn,
    ensures
        !visible(xid, other, infomask, snapshot, current_txn, view),
        visible(other, xid, infomask, snapshot, current_txn, view) == visible(
            other,
            0,
            infomask,
            snapshot,
            current_txn,
            view,
        ),
{
}

/// Of a transaction that has not committed, neither what it created nor what it deleted
/// is seen by another transaction.
pub proof fn uncommitted_work_is_invisible<S: TxnStatusView>(
    xid: TxnId,
    other: TxnId,
    infomask: u16,
    snapshot: Snapshot,
    current_txn: TxnId,
    view: S,
)
    requires
        xid != current_txn,
    ensures
        infomask & 1 == 0 && (infomask & 2 != 0 || view.recorded(xid) != TxnStatus::Committed)
            ==> !visible(xid, other, infomask, snapshot, current_txn, view),
        infomask & 4 == 0 && (infomask & 8 != 0 || view.recorded(xid) != TxnStatus::Committed)
            ==> visible(other, xid, infomask, snapshot, current_txn, view) == visible(
            other,
            0,
            infomask,
            snapshot,
            current_txn,
            view,
        ),
{
}

/// What a transaction committed before the capture of a snapshot is seen: a version that
/// it created and that nobody deleted is visible, and a version that it deleted is not.
/// That it committed is known from a hint bit, or else from the record where no hint
/// says that it aborted.
pub proof fn committed_work_of_the_past_is_visible<S: TxnStatusView>(
    xid: TxnId,
    other: TxnId,
    infomask: u16,
    snapshot: Snapshot,
    current_txn: TxnId,
    view: S,
)
    requires
        xid < snapshot.xmax,
        forall|i: int| 0 <= i < snapshot.xip@.len() ==> #[trigger] snapshot.xip@[i] != xid,
    ensures
        infomask & 1 != 0 || (infomask & 2 == 0 && view.recorded(xid) == TxnStatus::Committed)
            ==> visible(xid, 0, infomask, snapshot, current_txn, view),
        xid != 0 && (infomask & 4 != 0 || (infomask & 8 == 0 && view.recorded(xid)
            == TxnStatus::Committed)) ==> !visible(
            other,
            xid,
            infomask,
            snapshot,
            current_txn,
            view,
        ),
{
}

/// A transaction sees its own work at once, in every snapshot and whatever the record
/// and the hints say: what it created is visible until it is deleted, and what it
/// deleted is not.
pub proof fn own_work_is_visible<S: TxnStatusView>(
    other: TxnId,
    infomask: u16,
    snapshot: Snapshot,
    current_txn: TxnId,
    view: S,
)
    ensures
        visible(current_txn, 0, infomask, snapshot, current_txn, view),
        current_txn != 0 ==> !visible(
            other,
            current_txn,
            infomask,
            snapshot,
            current_txn,
            view,
        ),
{
}

/// The empty snapshot shows a transaction nothing but its own work; so does a snapshot
/// made by default.
pub proof fn the_empty_snapshot_shows_only_own_work<S: TxnStatusView>(
    xmin: TxnId,
    xmax: TxnId,
    infomask: u16,
    snapshot: Snapshot,
    current_txn: TxnId,
    view: S,
)
    requires
        call_ensures(Snapshot::empty, (), snapshot) || call_ensures(
            <Snapshot as Default>::default,
            (),
            snapshot,
        ),
        xmin != current_txn,
    ensures
        !visible(xmin, xmax, infomask, snapshot, current_txn, view),
{
}

/// The snapshot of all committed work hides nothing that is on record as committed, of
/// all the ids that are ever assigned, and shows nothing else of other transactions.
pub proof fn the_full_snapshot_shows_what_is_committed<S: TxnStatusView>(
    xmin: TxnId,
    xmax: TxnId,
    snapshot: Snapshot,
    current_txn: TxnId,
    view: S,
)
    requires
        call_ensures(Snapshot::sees_all_committed, (), snapshot),
        xmin < u64::MAX,
        xmax < u64::MAX,
        xmin != current_txn,
        xmax != current_txn,
    ensures
        visible(xmin, xmax, 0, snapshot, current_txn, view) <==> view.recorded(xmin)
            == TxnStatus::Committed && (xmax == 0 || view.recorded(xmax) != TxnStatus::Committed),
{
    visibility::lemma_no_hints();
}

/// A version can be reclaimed if its creator aborted, whatever became of its deletion,
/// and if its deletion committed below the horizon.
pub proof fn dead_versions_can_be_reclaimed<S: TxnStatusView>(
    xmin: TxnId,
    xmax: TxnId,
    infomask: u16,
    horizon: TxnId,
    view: S,
)
    ensures
        infomask & 2 != 0 || view.recorded(xmin) == TxnStatus::Aborted ==> dead_to_all(
            xmin,
            xmax,
            infomask,
            horizon,
            view,
        ),
        0 < xmax < horizon && (infomask & 4 != 0 || view.recorded(xmax) == TxnStatus::Committed)
            ==> dead_to_all(xmin, xmax, infomask, horizon, view),
{
}

/// A version whose creator did not abort is kept as long as it is not deleted, or its
/// deletion has not committed, or lies at or above the horizon.
pub proof fn live_versions_are_kept<S: TxnStatusView>(
    xmin: TxnId,
    xmax: TxnId,
    infomask: u16,
    horizon: TxnId,
    view: S,
)
    requires
        infomask & 2 == 0,
        view.recorded(xmin) != TxnStatus::Aborted,
        xmax == 0 || xmax >= horizon || (infomask & 4 == 0 && view.recorded(xmax)
            != TxnStatus::Committed),
    ensures
        !dead_to_all(xmin, xmax, infomask, horizon, view),
{
}

/// The horizon is exact: a snapshot captured just before a committed delete still shows
/// the version, which is kept at the horizon of that snapshot and can be reclaimed at the
/// next.
pub proof fn the_horizon_is_exact<S: TxnStatusView>(
    xmin: TxnId,
    xmax: TxnId,
    snapshot: Snapshot,
    current_txn: TxnId,
    view: S,
)
    requires
        view.recorded(xmin) == TxnStatus::Committed,
        view.recorded(xmax) == TxnStatus::Committed,
        0 < xmax < u64::MAX,
        xmin < xmax,
        current_txn != xmin,
        current_txn != xmax,
        snapshot.xmax == xmax,
        snapshot.xip@ == Seq::<TxnId>::empty(),
    ensures
        visible(xmin, xmax, 0, snapshot, current_txn, view),
        !dead_to_all(xmin, xmax, 0, xmax, view),
        dead_to_all(xmin, xmax, 0, (xmax + 1) as u64, view),
{
    visibility::lemma_no_hints();
}

/// A version is no obstacle to a writer that wants its unique key if its creator aborted
/// and is not the writer.
pub proof fn aborted_versions_do_not_occupy_keys<S: TxnStatusView>(
    xmin: TxnId,
    xmax: TxnId,
    infomask: u16,
    current_txns: Seq<TxnId>,
    view: S,
)
    requires
        forall|i: int| 0 <= i < current_txns.len() ==> #[trigger] current_txns[i] != xmin,
        infomask & 1 == 0,
        infomask & 2 != 0 || view.recorded(xmin) == TxnStatus::Aborted,
    ensures
        unique_claim(xmin, xmax, infomask, current_txns, view) == UniqueClaim::NoConflict,
{
}

/// A version is no obstacle to a writer that wants its unique key if its delete
/// committed, or was made by any of the transactions that count as the writer.
pub proof fn deleted_versions_do_not_occupy_keys<S: TxnStatusView>(
    xmin: TxnId,
    xmax: TxnId,
    infomask: u16,
    current_txns: Seq<TxnId>,
    view: S,
)
    requires
        xmax != 0,
        (exists|i: int| 0 <= i < current_txns.len() && #[trigger] current_txns[i] == xmax)
            || infomask & 4 != 0 || (infomask & 8 == 0 && view.recorded(xmax)
            == TxnStatus::Committed),
    ensures
        unique_claim(xmin, xmax, infomask, current_txns, view) == UniqueClaim::NoConflict,
{
}

/// A version that is not deleted, or whose delete is another's and has not committed, is
/// a duplicate of the writer's key if its creator committed or is any of the
/// transactions that count as the writer; and the writer waits for a creator that is
/// still running.
pub proof fn live_versions_occupy_keys<S: TxnStatusView>(
    xmin: TxnId,
    xmax: TxnId,
    infomask: u16,
    current_txns: Seq<TxnId>,
    view: S,
)
    requires
        xmax == 0 || {
            &&& forall|i: int| 0 <= i < current_txns.len() ==> #[trigger] current_txns[i] != xmax
            &&& infomask & 4 == 0
            &&& infomask & 8 != 0 || view.recorded(xmax) != TxnStatus::Committed
        },
    ensures
        (exists|i: int| 0 <= i < current_txns.len() && #[trigger] current_txns[i] == xmin)
            || infomask & 1 != 0 || (infomask & 2 == 0 && view.recorded(xmin)
            == TxnStatus::Committed) ==> unique_claim(xmin, xmax, infomask, current_txns, view)
            == UniqueClaim::Violation,
        (forall|i: int| 0 <= i < current_txns.len() ==> #[trigger] current_txns[i] != xmin)
            && infomask & 1 == 0 && infomask & 2 == 0 && view.recorded(xmin)
            == TxnStatus::InProgress ==> unique_claim(xmin, xmax, infomask, current_txns, view)
            == UniqueClaim::WouldBlock(xmin),
{
}

/// A writer may take the row lock of a version that nobody holds, that any of the
/// transactions that count as the writer holds, or whose holder aborted.
pub proof fn free_versions_can_be_written<S: TxnStatusView>(
    xmax: TxnId,
    infomask: u16,
    current_txns: Seq<TxnId>,
    view: S,
)
    requires
        ({
            ||| xmax == 0
            ||| exists|i: int| 0 <= i < current_txns.len() && #[trigger] current_txns[i] == xmax
            ||| infomask & 8 != 0
            ||| infomask & 4 == 0 && view.recorded(xmax) == TxnStatus::Aborted
        }),
    ensures
        write_claim(xmax, infomask, current_txns, view) == WriteClaim::Proceed,
{
}

/// Another writer that holds the row lock of a version stands in the way: for good once
/// it has committed, and until it ends while it is running.
pub proof fn locked_versions_cannot_be_written<S: TxnStatusView>(
    xmax: TxnId,
    infomask: u16,
    current_txns: Seq<TxnId>,
    view: S,
)
    requires
        xmax != 0,
        forall|i: int| 0 <= i < current_txns.len() ==> #[trigger] current_txns[i] != xmax,
        infomask & 8 == 0,
    ensures
        infomask & 4 != 0 || view.recorded(xmax) == TxnStatus::Committed ==> write_claim(
            xmax,
            infomask,
            current_txns,
            view,
        ) == WriteClaim::Conflict,
        infomask & 4 == 0 && view.recorded(xmax) == TxnStatus::InProgress ==> write_claim(
            xmax,
            infomask,
            current_txns,
            view,
        ) == WriteClaim::WouldBlock(xmax),
{
}

/// A writer that does not wait takes a creator that is still running as undecided, and a
/// holder of the row lock that is still running as a conflict; all else it takes as a
/// writer that waits does.
pub proof fn writers_that_do_not_wait_decide_at_once(xid: TxnId)
    ensures
        unique_conflict_of(UniqueClaim::NoConflict) == UniqueConflict::NoConflict,
        unique_conflict_of(UniqueClaim::Violation) == UniqueConflict::Violation,
        unique_conflict_of(UniqueClaim::WouldBlock(xid)) == UniqueConflict::InFlight,
        write_conflict_of(WriteClaim::Proceed) == WriteConflict::Proceed,
        write_conflict_of(WriteClaim::Conflict) == WriteConflict::Conflict,
        write_conflict_of(WriteClaim::WouldBlock(xid)) == WriteConflict::Conflict,
{
}

/// A second claim agrees with the first: once the running creator of a version ends, the
/// writer that waited for it finds the key free if it aborted, and taken if it
/// committed.
pub proof fn waiting_settles_the_claim<S: TxnStatusView, T: TxnStatusView>(
    xmin: TxnId,
    xmax: TxnId,
    infomask: u16,
    current_txns: Seq<TxnId>,
    before: S,
    after: T,
)
    requires
        unique_claim(xmin, xmax, infomask, current_txns, before) == UniqueClaim::WouldBlock(xmin),
        after.recorded(xmax) == before.recorded(xmax),
    ensures
        after.recorded(xmin) == TxnStatus::Aborted ==> unique_claim(
            xmin,
            xmax,
            infomask,
            current_txns,
            after,
        ) == UniqueClaim::NoConflict,
        after.recorded(xmin) == TxnStatus::Committed ==> unique_claim(
            xmin,
            xmax,
            infomask,
            current_txns,
            after,
        ) == UniqueClaim::Violation,
{
}

} // verus!
