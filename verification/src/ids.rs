//! Identifiers shared by the catalog, storage and transaction layers.

use core::cmp::Ordering;
use vstd::prelude::*;

use crate::error::{self, DbError, ErrorKind, Result, SqlState};
use crate::order::{self, Order};

verus! {

pub type TableId = u32;

pub type SchemaId = u32;

pub const PUBLIC_SCHEMA_ID: SchemaId = 1;

pub const FIRST_USER_SCHEMA_ID: SchemaId = 2;

pub type ColumnId = u16;

/// Durable identity of a column within its containing relation. Unlike the
/// dense [`ColumnId`] storage ordinal, this value is never renumbered or reused.
pub type ColumnObjectId = u32;

/// Stable PostgreSQL-compatible OID of a built-in scalar function.
pub type FunctionId = u32;

/// Globally durable identity of a catalog constraint.
pub type ConstraintId = u32;

/// Globally durable identity of a catalog index. Zero is reserved for the
/// synthetic primary-key index identity; user index IDs are never reused.
pub type IndexId = u32;

pub type SequenceId = u32;

pub const PRIMARY_KEY_INDEX_ID: IndexId = 0;

pub type BindingId = u32;

pub type PageNum = u32;

pub type FileId = u32;

pub type Lsn = u64;

/// Transaction identifier. MVCC tuple headers stamp the creator (`xmin`) and
/// deleter (`xmax`) of each row version with one of these.
pub type TxnId = u64;

/// Reserved transaction id meaning "no transaction": a live (un-deleted) row's
/// `xmax`, or an absent transaction reference. Never a real allocated id.
pub const INVALID_XID: TxnId = 0;

/// Reserved transaction id meaning "always committed / always visible". Rows of
/// the first row format decode with `xmin = FROZEN_XID` so they are visible to
/// every snapshot, and VACUUM freezes settled tuples to this id.
pub const FROZEN_XID: TxnId = 2;

/// The transaction-id allocator must assign real ids strictly greater than the
/// reserved range so they never collide with `INVALID_XID`/`FROZEN_XID`.
pub const FIRST_NORMAL_XID: TxnId = 3;

/// The two byte positions associated with a WAL record. `replay_from` is the
/// record-start boundary and `record_lsn` is the stored end boundary stamped on
/// pages.
#[derive(Clone, Copy, Debug, PartialEq, Eq, PartialOrd, Ord, Structural)]
pub struct WalPosition {
    pub replay_from: Lsn,
    pub record_lsn: Lsn,
}

impl WalPosition {
    /// A record's position; its start must lie before its end.
    pub fn new(replay_from: Lsn, record_lsn: Lsn) -> (position: Result<Self>)
        ensures
            match position {
                Ok(position) => replay_from < record_lsn && position == (WalPosition {
                    replay_from,
                    record_lsn,
                }),
                Err(error) => replay_from >= record_lsn && error@ == error::plain_error(
                    ErrorKind::Wal,
                    SqlState::InternalError,
                    "WAL record position must have a start before its end"@,
                ),
            },
    {
        if replay_from >= record_lsn {
            return Err(
                DbError::wal(
                    SqlState::InternalError,
                    "WAL record position must have a start before its end",
                ),
            );
        }
        Ok(Self { replay_from, record_lsn })
    }
}

/// Earliest WAL record needed to reconstruct one dirty page.
#[derive(Clone, Copy, Debug, PartialEq, Eq, Structural)]
pub struct DirtyPageEntry {
    pub file_id: FileId,
    pub page_num: PageNum,
    pub rec_lsn: Lsn,
}

impl DirtyPageEntry {
    /// Entries are ordered by the page they name: file first, then page number.
    pub open spec fn page_order(self, other: Self) -> Order {
        if self.file_id < other.file_id || (self.file_id == other.file_id && self.page_num
            < other.page_num) {
            Order::Less
        } else if self.file_id == other.file_id && self.page_num == other.page_num {
            Order::Equal
        } else {
            Order::Greater
        }
    }
}

impl PartialOrd for DirtyPageEntry {
    fn partial_cmp(&self, other: &Self) -> (order: Option<Ordering>) {
        if self.file_id < other.file_id {
            Some(Ordering::Less)
        } else if self.file_id > other.file_id {
            Some(Ordering::Greater)
        } else if self.page_num < other.page_num {
            Some(Ordering::Less)
        } else if self.page_num > other.page_num {
            Some(Ordering::Greater)
        } else {
            Some(Ordering::Equal)
        }
    }
}

impl vstd::std_specs::cmp::PartialOrdSpecImpl for DirtyPageEntry {
    open spec fn obeys_partial_cmp_spec() -> bool {
        true
    }

    open spec fn partial_cmp_spec(&self, other: &Self) -> Option<Ordering> {
        Some(order::std_order(self.page_order(*other)))
    }
}

/// Physical position of a row: its page and the slot within it.
#[derive(Clone, Copy, Debug, PartialEq, Eq, PartialOrd, Ord, Structural)]
pub struct RowId {
    pub page_num: PageNum,
    pub slot_num: u16,
}

/// Entries for dirty pages are ordered by their files, and those of one file by their
/// pages; where their records begin has no part in it.
pub proof fn entries_are_ordered_by_page(a: DirtyPageEntry, b: DirtyPageEntry)
    ensures
        ({
            let order = vstd::std_specs::cmp::PartialOrdSpec::partial_cmp_spec(&a, &b);
            &&& a.file_id < b.file_id ==> order == Some(Ordering::Less)
            &&& a.file_id > b.file_id ==> order == Some(Ordering::Greater)
            &&& a.file_id == b.file_id && a.page_num < b.page_num ==> order == Some(Ordering::Less)
            &&& a.file_id == b.file_id && a.page_num > b.page_num ==> order == Some(
                Ordering::Greater,
            )
            &&& a.file_id == b.file_id && a.page_num == b.page_num ==> order == Some(
                Ordering::Equal,
            )
        }),
{
}

/// A record takes up at least a byte, and a position that is made keeps both of its ends.
pub proof fn positions_are_not_empty(replay_from: Lsn, record_lsn: Lsn, made: Result<WalPosition>)
    requires
        call_ensures(WalPosition::new, (replay_from, record_lsn), made),
    ensures
        made is Ok <==> replay_from < record_lsn,
        made matches Ok(position) ==> position.replay_from == replay_from && position.record_lsn
            == record_lsn,
{
}

/// The numbers of transactions begin with the reserved ones: 0 is none, 2 is that of frozen
/// rows, and every number from 3 on is that of a transaction. The public schema comes
/// before every other one that a user sees, and the primary key before every other index.
pub proof fn reserved_numbers_come_first(txn: TxnId, schema: SchemaId, index: IndexId)
    ensures
        INVALID_XID == 0 && FROZEN_XID == 2,
        txn >= FIRST_NORMAL_XID <==> txn > FROZEN_XID,
        schema >= FIRST_USER_SCHEMA_ID <==> schema > PUBLIC_SCHEMA_ID,
        PUBLIC_SCHEMA_ID == 1,
        index >= PRIMARY_KEY_INDEX_ID,
{
}

} // verus!
