//! Write-conflict and uniqueness-conflict classifiers.

use vstd::prelude::*;

use crate::ids::{TxnId, INVALID_XID};
use crate::mvcc::visibility::{self, XMAX_ABORTED, XMAX_COMMITTED, XMIN_ABORTED, XMIN_COMMITTED};
use crate::mvcc::{self, TxnStatus, TxnStatusView};

verus! {

/// The three-way outcome of the concurrent-inserter uniqueness check. It refines the
/// boolean [`version_conflicts`] by distinguishing a *definite* duplicate from one
/// that is only *potentially* a duplicate because the conflicting version's creator
/// is another still-running transaction that may yet abort.
#[derive(Clone, Copy, Debug, PartialEq, Eq, Structural)]
pub enum UniqueConflict {
    /// The candidate version is **dead** (its creator aborted, or it is
    /// committed-deleted / deleted-by-me), so it does not occupy the key. The
    /// inserter may proceed.
    NoConflict,
    /// The candidate version is **alive and definitely a duplicate**: its creator
    /// is committed, is `current_txn` itself (I already hold this key), or is
    /// frozen/reserved. The inserter must fail with a
    /// [`SqlState::UniqueViolation`](crate::SqlState::UniqueViolation) (`23505`).
    Violation,
    /// The candidate version is **alive but only potentially a duplicate**: its
    /// creator is **another in-progress transaction** (not me, not committed) that
    /// has not yet committed or aborted, so uniqueness is undecidable.
    InFlight,
}

/// The uniqueness outcome for a writer that waits for the creator of a version that is
/// still in flight and re-checks when it has finished.
#[derive(Clone, Copy, Debug, PartialEq, Eq, Structural)]
pub enum UniqueClaim {
    /// As [`UniqueConflict::NoConflict`].
    NoConflict,
    /// As [`UniqueConflict::Violation`].
    Violation,
    /// As [`UniqueConflict::InFlight`]. Carries the creator's xid for the waiter and
    /// the deadlock detector.
    WouldBlock(TxnId),
}

/// The outcome of the write-write conflict check: whether a writer may claim a target
/// version's row lock (its `xmax`).
#[derive(Clone, Copy, Debug, PartialEq, Eq, Structural)]
pub enum WriteConflict {
    /// No live lock stands in the way; the writer may stamp `xmax = my_txn` and
    /// supersede this version (it is the first updater, or it already owns the
    /// lock, or the prior lock evaporated when its holder aborted).
    Proceed,
    /// Another transaction deleted or updated this version, or is about to, so the
    /// row changes under the writer:
    /// [`SqlState::SerializationFailure`](crate::SqlState::SerializationFailure)
    /// (`40001`).
    Conflict,
}

/// The write-write outcome for a writer that waits for the holder of the row lock and
/// re-checks when it has finished.
#[derive(Clone, Copy, Debug, PartialEq, Eq, Structural)]
pub enum WriteClaim {
    /// As [`WriteConflict::Proceed`].
    Proceed,
    /// Another transaction **committed** a delete/update of this version.
    Conflict,
    /// Another **in-progress** writer holds the version's row lock. Carries the
    /// holder's xid for the waiter and the deadlock detector.
    WouldBlock(TxnId),
}

/// The status of a version's creator to transactions that count as one: their own
/// work is as good as committed.
pub open spec fn creator_to<S: TxnStatusView>(
    xmin: TxnId,
    infomask: u16,
    current_txns: Seq<TxnId>,
    view: S,
) -> TxnStatus {
    if current_txns.contains(xmin) {
        TxnStatus::Committed
    } else {
        visibility::creator_status(xmin, infomask, view)
    }
}

/// A version is gone if one of the transactions deleted it, or if the delete
/// committed.
pub open spec fn is_deleted<S: TxnStatusView>(
    xmax: TxnId,
    infomask: u16,
    current_txns: Seq<TxnId>,
    view: S,
) -> bool {
    xmax != INVALID_XID && (current_txns.contains(xmax) || visibility::deleter_status(
        xmax,
        infomask,
        view,
    ) == TxnStatus::Committed)
}

/// How a version stands in the way of transactions that want its unique key.
pub open spec fn unique_claim<S: TxnStatusView>(
    xmin: TxnId,
    xmax: TxnId,
    infomask: u16,
    current_txns: Seq<TxnId>,
    view: S,
) -> UniqueClaim {
    let creator = creator_to(xmin, infomask, current_txns, view);
    if creator == TxnStatus::Aborted || is_deleted(xmax, infomask, current_txns, view) {
        UniqueClaim::NoConflict
    } else if creator == TxnStatus::Committed {
        UniqueClaim::Violation
    } else {
        UniqueClaim::WouldBlock(xmin)
    }
}

/// A claim without the transaction to wait for.
pub open spec fn unique_conflict_of(claim: UniqueClaim) -> UniqueConflict {
    match claim {
        UniqueClaim::NoConflict => UniqueConflict::NoConflict,
        UniqueClaim::Violation => UniqueConflict::Violation,
        UniqueClaim::WouldBlock(_) => UniqueConflict::InFlight,
    }
}

/// How the deleter of a version stands in the way of transactions that want to write
/// it.
pub open spec fn write_claim<S: TxnStatusView>(
    xmax: TxnId,
    infomask: u16,
    current_txns: Seq<TxnId>,
    view: S,
) -> WriteClaim {
    if xmax == INVALID_XID || current_txns.contains(xmax) || infomask & XMAX_ABORTED != 0 {
        WriteClaim::Proceed
    } else if infomask & XMAX_COMMITTED != 0 {
        WriteClaim::Conflict
    } else {
        match view.recorded(xmax) {
            TxnStatus::Aborted => WriteClaim::Proceed,
            TxnStatus::Committed => WriteClaim::Conflict,
            TxnStatus::InProgress => WriteClaim::WouldBlock(xmax),
        }
    }
}

/// A claim without the transaction to wait for: one that is still running conflicts.
pub open spec fn write_conflict_of(claim: WriteClaim) -> WriteConflict {
    match claim {
        WriteClaim::Proceed => WriteConflict::Proceed,
        _ => WriteConflict::Conflict,
    }
}

/// The three-way **concurrent-inserter uniqueness** classifier. Given a candidate
/// index version with creator `xmin` and deleter `xmax`, decide whether it blocks the
/// transactions `current_txns`, which count as one, claiming the same unique key.
///
/// - **Dead, so [`UniqueClaim::NoConflict`]:** the creator aborted (`XMIN_ABORTED`, or
///   `status(xmin) == Aborted`), **or** the version is committed-deleted -
///   `xmax` is set and either the delete is mine (e.g. an UPDATE's own superseded old
///   version, so an UPDATE does not false-conflict on the row it supersedes), or the
///   deleter committed (`XMAX_COMMITTED`, or `status(xmax) == Committed`).
/// - **Alive, creator settled-as-mine-or-committed, so [`UniqueClaim::Violation`]:**
///   the creator is mine, or it is committed (`XMIN_COMMITTED`, or
///   `status(xmin) == Committed`). Definitely a duplicate.
/// - **Alive, creator is another in-progress txn, so [`UniqueClaim::WouldBlock`]:**
///   it may yet abort, so uniqueness is undecidable; block on the creator (`xmin`) and
///   re-check when it finishes.
///
/// **Hint bits** short-circuit the probe: `XMIN_ABORTED` settles a dead creator,
/// `XMIN_COMMITTED` settles a `Violation` creator, and the `XMAX_*` bits settle the
/// committed-deleted check - all without calling [`TxnStatusView::status`].
pub fn classify_unique_conflict_among<S: TxnStatusView>(
    xmin: TxnId,
    xmax: TxnId,
    infomask: u16,
    current_txns: &[TxnId],
    status: &S,
) -> (claim: UniqueClaim)
    ensures
        claim == unique_claim(xmin, xmax, infomask, current_txns@, *status),
{
    // My own write is always treated as committed-to-me, and takes precedence over the
    // hints, so the record is never consulted for an own write.
    let creator: TxnStatus = if mvcc::contains_id(current_txns, xmin) || infomask & XMIN_COMMITTED
        != 0 {
        TxnStatus::Committed
    } else if infomask & XMIN_ABORTED != 0 {
        TxnStatus::Aborted
    } else {
        status.status(xmin)
    };
    // Creator aborted: the version is definitively dead; never conflicts.
    if creator == TxnStatus::Aborted {
        return UniqueClaim::NoConflict;
    }
    // Committed-deleted (including deleted-by-me, e.g. an UPDATE's superseded old
    // version): the row is gone; no conflict.
    if xmax != INVALID_XID && (mvcc::contains_id(current_txns, xmax) || infomask & XMAX_COMMITTED
        != 0 || (infomask & XMAX_ABORTED == 0 && status.status(xmax) == TxnStatus::Committed)) {
        return UniqueClaim::NoConflict;
    }
    // Alive: a committed creator (or my own live version) is a definite duplicate; only
    // another transaction's still-running creator is in flight.
    if creator == TxnStatus::Committed {
        UniqueClaim::Violation
    } else {
        UniqueClaim::WouldBlock(xmin)
    }
}

/// The three-way uniqueness classifier for one transaction: as
/// [`classify_unique_conflict_among`], without the transaction to wait for.
pub fn classify_unique_conflict<S: TxnStatusView>(
    xmin: TxnId,
    xmax: TxnId,
    infomask: u16,
    current_txn: TxnId,
    status: &S,
) -> (conflict: UniqueConflict)
    ensures
        conflict == unique_conflict_of(
            unique_claim(xmin, xmax, infomask, seq![current_txn], *status),
        ),
{
    let current_txns: [TxnId; 1] = [current_txn];
    assert(current_txns@ =~= seq![current_txn]);
    match classify_unique_conflict_among(xmin, xmax, infomask, &current_txns, status) {
        UniqueClaim::NoConflict => UniqueConflict::NoConflict,
        UniqueClaim::Violation => UniqueConflict::Violation,
        UniqueClaim::WouldBlock(_) => UniqueConflict::InFlight,
    }
}

/// The **uniqueness conflict** predicate for transactions that count as one; see
/// [`version_conflicts`].
pub fn version_conflicts_among<S: TxnStatusView>(
    xmin: TxnId,
    xmax: TxnId,
    infomask: u16,
    current_txns: &[TxnId],
    status: &S,
) -> (conflicts: bool)
    ensures
        conflicts == (unique_claim(xmin, xmax, infomask, current_txns@, *status)
            != UniqueClaim::NoConflict),
{
    classify_unique_conflict_among(xmin, xmax, infomask, current_txns, status)
        != UniqueClaim::NoConflict
}

/// The visibility-aware **uniqueness conflict** predicate: whether a candidate index
/// version with creator `xmin` and deleter `xmax` is **alive or potentially-alive** and
/// therefore conflicts with an inserting transaction `current_txn` trying to claim the
/// same unique key.
///
/// This is a **liveness ("dirty") check, not a snapshot-relative read**. Unique
/// enforcement must consider concurrently in-flight and already-committed state -
/// not just what `current_txn`'s snapshot sees - so it takes **no snapshot** and
/// decides committed/aborted purely from the [`TxnStatusView`] and the `infomask`
/// hint bits.
pub fn version_conflicts<S: TxnStatusView>(
    xmin: TxnId,
    xmax: TxnId,
    infomask: u16,
    current_txn: TxnId,
    status: &S,
) -> (conflicts: bool)
    ensures
        conflicts == (unique_claim(xmin, xmax, infomask, seq![current_txn], *status)
            != UniqueClaim::NoConflict),
{
    classify_unique_conflict(xmin, xmax, infomask, current_txn, status) != UniqueConflict::NoConflict
}

/// The pure **write-write conflict** predicate: given the deleter `xmax` already
/// stamped on a target version's *physical* tuple header, may the transactions
/// `current_txns`, which count as one, claim that version's row lock?
///
/// `xmax` doubles as the row lock, and this is an **actual-status** check, not a
/// snapshot-relative read:
/// - `xmax == INVALID_XID`, or the lock is mine: [`WriteClaim::Proceed`].
/// - the deleter **aborted** (`XMAX_ABORTED` hint, or `status(xmax) == Aborted`):
///   [`WriteClaim::Proceed`], the other lock evaporated.
/// - the deleter **committed** (`XMAX_COMMITTED` hint, or `status == Committed`):
///   [`WriteClaim::Conflict`].
/// - the deleter is **in-progress**: [`WriteClaim::WouldBlock`] with its id.
///
/// **Hint bits** decide the deleter's fate without calling [`TxnStatusView::status`].
pub fn write_conflict_among<S: TxnStatusView>(
    xmax: TxnId,
    infomask: u16,
    current_txns: &[TxnId],
    status: &S,
) -> (claim: WriteClaim)
    ensures
        claim == write_claim(xmax, infomask, current_txns@, *status),
{
    // No deleter: the row is unlocked, and I am the first updater.
    if xmax == INVALID_XID {
        return WriteClaim::Proceed;
    }
    // I already hold the lock (locked/deleted it earlier in my own transaction).
    if mvcc::contains_id(current_txns, xmax) {
        return WriteClaim::Proceed;
    }
    // An aborted delete frees the row, a committed delete means another transaction
    // beat me.
    if infomask & XMAX_ABORTED != 0 {
        return WriteClaim::Proceed;
    }
    if infomask & XMAX_COMMITTED != 0 {
        return WriteClaim::Conflict;
    }
    match status.status(xmax) {
        TxnStatus::Aborted => WriteClaim::Proceed,
        TxnStatus::Committed => WriteClaim::Conflict,
        TxnStatus::InProgress => WriteClaim::WouldBlock(xmax),
    }
}

/// The write-write conflict predicate for one transaction that does not wait: another
/// writer that holds the row lock is a conflict at once, whether it has committed or is
/// still running.
pub fn write_conflict<S: TxnStatusView>(
    xmax: TxnId,
    infomask: u16,
    current_txn: TxnId,
    status: &S,
) -> (conflict: WriteConflict)
    ensures
        conflict == write_conflict_of(write_claim(xmax, infomask, seq![current_txn], *status)),
{
    let current_txns: [TxnId; 1] = [current_txn];
    assert(current_txns@ =~= seq![current_txn]);
    match write_conflict_among(xmax, infomask, &current_txns, status) {
        WriteClaim::Proceed => WriteConflict::Proceed,
        _ => WriteConflict::Conflict,
    }
}

/// Hint bits that agree with the record change neither classification.
pub proof fn hints_do_not_change_conflicts<S: TxnStatusView>(
    xmin: TxnId,
    xmax: TxnId,
    infomask: u16,
    current_txns: Seq<TxnId>,
    view: S,
)
    requires
        visibility::hints_agree(xmin, xmax, infomask, view),
    ensures
        unique_claim(xmin, xmax, infomask, current_txns, view) == unique_claim(
            xmin,
            xmax,
            0,
            current_txns,
            view,
        ),
        write_claim(xmax, infomask, current_txns, view) == write_claim(
            xmax,
            0,
            current_txns,
            view,
        ),
{
    visibility::lemma_no_hints();
}

/// A writer that waits is told to wait for another transaction that is in progress,
/// never for itself.
pub proof fn waits_are_for_running_transactions<S: TxnStatusView>(
    xmin: TxnId,
    xmax: TxnId,
    infomask: u16,
    current_txns: Seq<TxnId>,
    view: S,
)
    ensures
        match unique_claim(xmin, xmax, infomask, current_txns, view) {
            UniqueClaim::WouldBlock(xid) => !current_txns.contains(xid) && view.recorded(xid)
                == TxnStatus::InProgress,
            _ => true,
        },
        match write_claim(xmax, infomask, current_txns, view) {
            WriteClaim::WouldBlock(xid) => !current_txns.contains(xid) && view.recorded(xid)
                == TxnStatus::InProgress && xid != INVALID_XID,
            _ => true,
        },
{
}

/// Every version that a snapshot shows to a transaction stands in the way of a
/// duplicate, as long as no later delete of it has committed.
pub proof fn visible_versions_conflict<S: TxnStatusView>(
    xmin: TxnId,
    xmax: TxnId,
    infomask: u16,
    snapshot: mvcc::Snapshot,
    current_txn: TxnId,
    view: S,
)
    requires
        visibility::hints_agree(xmin, xmax, infomask, view),
        visibility::visible(xmin, xmax, infomask, snapshot, current_txn, view),
        xmax == INVALID_XID || view.recorded(xmax) != TxnStatus::Committed,
    ensures
        unique_claim(xmin, xmax, infomask, seq![current_txn], view) == UniqueClaim::Violation,
{
    assert(seq![current_txn].contains(xmin) <==> xmin == current_txn) by {
        assert(seq![current_txn][0] == current_txn);
    }
    assert(seq![current_txn].contains(xmax) <==> xmax == current_txn) by {
        assert(seq![current_txn][0] == current_txn);
    }
}

} // verus!
