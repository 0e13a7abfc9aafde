//! Row locks.

use core::cmp::Ordering;
use vstd::prelude::*;

use crate::cancel::QueryCancel;
use crate::error::Result;
use crate::ids::{TableId, TxnId};
use crate::order::{self, Order};
use crate::row::{self, Key};

verus! {

/// Logical identity of a row lock. The key is the table's primary key or its
/// stable hidden heap identity, so it survives non-key updates and HOT moves.
#[derive(Clone, Debug, Hash)]
pub struct TupleLockTag {
    pub table: TableId,
    pub key: Key,
}

impl TupleLockTag {
    /// Tags are ordered by table, and within a table by key.
    pub open spec fn spec_order(self, other: Self) -> Order {
        match order::int_order(self.table as int, other.table as int) {
            Order::Equal => row::order_of_values(self.key@, other.key@),
            decided => decided,
        }
    }

    /// The order of two tags: by table, and within a table by key.
    pub fn order(&self, other: &Self) -> (order: Order)
        ensures
            order == self.spec_order(*other),
    {
        if self.table < other.table {
            Order::Less
        } else if self.table > other.table {
            Order::Greater
        } else {
            self.key.order(&other.key)
        }
    }
}

impl PartialEq for TupleLockTag {
    fn eq(&self, other: &Self) -> (equal: bool) {
        self.table == other.table && self.key == other.key
    }
}

impl vstd::std_specs::cmp::PartialEqSpecImpl for TupleLockTag {
    open spec fn obeys_eq_spec() -> bool {
        true
    }

    open spec fn eq_spec(&self, other: &Self) -> bool {
        self.table == other.table && row::same_values(self.key@, other.key@)
    }
}

impl Eq for TupleLockTag {

}

impl PartialOrd for TupleLockTag {
    fn partial_cmp(&self, other: &Self) -> (order: Option<Ordering>) {
        Some(order::to_std_order(self.order(other)))
    }
}

impl vstd::std_specs::cmp::PartialOrdSpecImpl for TupleLockTag {
    open spec fn obeys_partial_cmp_spec() -> bool {
        true
    }

    open spec fn partial_cmp_spec(&self, other: &Self) -> Option<Ordering> {
        Some(order::std_order(self.spec_order(*other)))
    }
}

/// PostgreSQL-compatible tuple lock strengths, ordered from weakest to strongest.
#[derive(Clone, Copy, Debug, PartialEq, Eq, Ord, Hash, Structural)]
pub enum TupleLockMode {
    KeyShare,
    Share,
    NoKeyUpdate,
    Update,
}

impl TupleLockMode {
    /// How strong the lock is.
    pub open spec fn spec_strength(self) -> int {
        match self {
            TupleLockMode::KeyShare => 0,
            TupleLockMode::Share => 1,
            TupleLockMode::NoKeyUpdate => 2,
            TupleLockMode::Update => 3,
        }
    }

    fn strength(self) -> (strength: i128)
        ensures
            strength == self.spec_strength(),
    {
        match self {
            TupleLockMode::KeyShare => 0,
            TupleLockMode::Share => 1,
            TupleLockMode::NoKeyUpdate => 2,
            TupleLockMode::Update => 3,
        }
    }
}

impl PartialOrd for TupleLockMode {
    fn partial_cmp(&self, other: &Self) -> (order: Option<Ordering>) {
        Some(order::to_std_order(order::order_ints(self.strength(), other.strength())))
    }
}

impl vstd::std_specs::cmp::PartialOrdSpecImpl for TupleLockMode {
    open spec fn obeys_partial_cmp_spec() -> bool {
        true
    }

    open spec fn partial_cmp_spec(&self, other: &Self) -> Option<Ordering> {
        Some(order::std_order(order::int_order(self.spec_strength(), other.spec_strength())))
    }
}

#[derive(Clone, Copy, Debug, PartialEq, Eq, Structural)]
pub enum TupleLockWaitPolicy {
    Block,
    NoWait,
    SkipLocked,
}

/// Reversible change made while acquiring one tuple grant. Successor traversal
/// uses these receipts to undo only grants from an ultimately skipped row. What a
/// receipt holds is up to the lock manager.
#[derive(Debug)]
pub struct TupleLockGrantChange<R> {
    receipt: R,
}

impl<R> TupleLockGrantChange<R> {
    /// What the lock manager put into the receipt.
    pub closed spec fn payload(self) -> R {
        self.receipt
    }

    /// Lock-manager implementation hook. Callers receive receipts from
    /// `acquire_tuple`; they must not manufacture them.
    pub fn manager_receipt(payload: R) -> (change: Self)
        ensures
            change.payload() == payload,
    {
        TupleLockGrantChange { receipt: payload }
    }

    /// What the lock manager put into the receipt.
    pub fn manager_payload(&self) -> (payload: Option<&R>)
        ensures
            payload == Some(&self.payload()),
    {
        Some(&self.receipt)
    }
}

#[derive(Debug)]
pub enum TupleLockAcquire<R> {
    Acquired(TupleLockGrantChange<R>),
    Skipped,
}

/// Transaction-owned tuple locking. Implementations must share their wait graph
/// with catalog-object and uniqueness waits so mixed deadlocks remain visible.
pub trait TupleLockManager: Send + Sync {
    /// What the manager notes of a grant in order to undo it.
    type Receipt;

    fn acquire_tuple(
        &self,
        xid: TxnId,
        tag: &TupleLockTag,
        mode: TupleLockMode,
        wait_policy: TupleLockWaitPolicy,
        cancel: &QueryCancel,
    ) -> Result<TupleLockAcquire<Self::Receipt>>;

    fn restore_tuple_grants(
        &self,
        xid: TxnId,
        changes: Vec<TupleLockGrantChange<Self::Receipt>>,
    ) -> Result<()>;
}

/// Lock modes are ordered from the weakest to the strongest: a key share is weaker than a
/// share, a share than an update that leaves the key, and that than an update.
pub proof fn modes_are_ordered_by_strength(mode: TupleLockMode)
    ensures
        ({
            let order = |a: TupleLockMode, b: TupleLockMode|
                vstd::std_specs::cmp::PartialOrdSpec::partial_cmp_spec(&a, &b);
            &&& order(TupleLockMode::KeyShare, TupleLockMode::Share) == Some(Ordering::Less)
            &&& order(TupleLockMode::Share, TupleLockMode::NoKeyUpdate) == Some(Ordering::Less)
            &&& order(TupleLockMode::NoKeyUpdate, TupleLockMode::Update) == Some(Ordering::Less)
            &&& order(mode, mode) == Some(Ordering::Equal)
            &&& order(mode, TupleLockMode::Update) != Some(Ordering::Greater)
            &&& order(TupleLockMode::KeyShare, mode) != Some(Ordering::Greater)
        }),
{
}

/// Tags are ordered by their tables, and tags of one table as their keys are.
pub proof fn tags_are_ordered_by_table_and_key(a: TupleLockTag, b: TupleLockTag)
    ensures
        ({
            let order = vstd::std_specs::cmp::PartialOrdSpec::partial_cmp_spec(&a, &b);
            &&& a.table < b.table ==> order == Some(Ordering::Less)
            &&& a.table > b.table ==> order == Some(Ordering::Greater)
            &&& a.table == b.table ==> order == Some(
                match row::order_of_values(a.key@, b.key@) {
                    Order::Less => Ordering::Less,
                    Order::Equal => Ordering::Equal,
                    Order::Greater => Ordering::Greater,
                },
            )
            &&& order == Some(Ordering::Equal)
                <==> vstd::std_specs::cmp::PartialEqSpec::eq_spec(&a, &b)
        }),
{
    row::order_of_values_is_total(a.key@, b.key@);
}

} // verus!
