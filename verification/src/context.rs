//! What a statement is executed with: its transaction, snapshot and session, and the
//! services that a server supplies.

use std::collections::HashMap;
use std::sync::Arc;
use vstd::prelude::*;

use crate::cancel::QueryCancel;
use crate::error::{self, DbError, Result};
use crate::ids::{SequenceId, TableId, TxnId};
use crate::mvcc::{IsolationLevel, Snapshot};
use crate::row::Key;
use crate::text;

verus! {

/// Blocks a writer that hit an in-progress row-lock conflict until the holder
/// finishes, so the writer can re-check. The storage engine's write paths call this at
/// a conflict point (after dropping the page latch); the server's lock manager
/// implements it. `wait_for` returns `Ok` once `blocker` is no longer active (the
/// caller then re-checks the row), or `Err` with `DeadlockDetected` (`40P01`) if
/// waiting would deadlock, or `QueryCanceled` (`57014`) if `cancel` is set.
pub trait ConflictWaiter: Send + Sync {
    fn wait_for(&self, waiter: u64, blocker: u64, cancel: &QueryCancel) -> Result<()>;
}

/// The default `ConflictWaiter` for read-only / test contexts. A real conflict only
/// arises at a storage write-conflict point, which always carries the server's real
/// lock manager, so this is never legitimately reached. It **errors loudly** rather
/// than returning `Ok` - returning `Ok` would make a mis-wired write path spin forever.
#[derive(Debug)]
pub struct NoConflictWaiter;

/// What the default waiter reports.
pub open spec fn no_waiter_message(waiter: u64, blocker: u64) -> Seq<char> {
    "no conflict waiter configured: a write path reached a row-lock conflict (waiter="@
        + text::decimal_text(waiter as nat) + ", blocker="@ + text::decimal_text(blocker as nat)
        + ") without a lock manager"@
}

impl ConflictWaiter for NoConflictWaiter {
    fn wait_for(&self, waiter: u64, blocker: u64, _cancel: &QueryCancel) -> (result: Result<()>)
        ensures
            result is Err,
            result->Err_0@ == error::internal_error(no_waiter_message(waiter, blocker)),
    {
        let mut message: String = text::numbered_text(
            "no conflict waiter configured: a write path reached a row-lock conflict (waiter=",
            waiter as u128,
            ", blocker=",
        );
        text::push_decimal(&mut message, blocker as u128);
        message.append(") without a lock manager");
        assert(message@ =~= no_waiter_message(waiter, blocker));
        Err(DbError::internal(&message))
    }
}

/// Sequence value runtime used by the executor's `nextval` and `setval` scalar
/// expressions. The storage engine provides the real implementation; this trait keeps
/// expression evaluation decoupled from storage internals.
pub trait SequenceManager: Send + Sync {
    fn sequence_exists(&self, sequence: SequenceId) -> Result<bool>;

    fn nextval(&self, txn_id: TxnId, sequence: SequenceId) -> Result<i64>;

    fn setval(
        &self,
        txn_id: TxnId,
        sequence: SequenceId,
        value: i64,
        is_called: bool,
    ) -> Result<i64>;
}

/// The default `SequenceManager`: it errors on every call.
#[derive(Debug)]
pub struct NoSequenceManager;

impl SequenceManager for NoSequenceManager {
    fn sequence_exists(&self, sequence: SequenceId) -> (result: Result<bool>)
        ensures
            result is Err,
            result->Err_0@ == error::internal_error(
                "no sequence manager configured for sequence_exists("@ + text::decimal_text(
                    sequence as nat,
                ) + ")"@,
            ),
    {
        Err(
            DbError::internal(
                &text::numbered_text(
                    "no sequence manager configured for sequence_exists(",
                    sequence as u128,
                    ")",
                ),
            ),
        )
    }

    fn nextval(&self, _txn_id: TxnId, sequence: SequenceId) -> (result: Result<i64>)
        ensures
            result is Err,
            result->Err_0@ == error::internal_error(
                "no sequence manager configured for nextval("@ + text::decimal_text(
                    sequence as nat,
                ) + ")"@,
            ),
    {
        Err(
            DbError::internal(
                &text::numbered_text(
                    "no sequence manager configured for nextval(",
                    sequence as u128,
                    ")",
                ),
            ),
        )
    }

    fn setval(
        &self,
        _txn_id: TxnId,
        sequence: SequenceId,
        value: i64,
        is_called: bool,
    ) -> (result: Result<i64>)
        ensures
            result is Err,
            result->Err_0@ == error::internal_error(
                "no sequence manager configured for setval("@ + text::decimal_text(sequence as nat)
                    + ", "@ + text::signed_decimal_text(value as int) + (if is_called {
                    ", true)"@
                } else {
                    ", false)"@
                }),
            ),
    {
        let mut message: String = text::numbered_text(
            "no sequence manager configured for setval(",
            sequence as u128,
            ", ",
        );
        text::push_signed_decimal(&mut message, value);
        if is_called {
            message.append(", true)");
        } else {
            message.append(", false)");
        }
        Err(DbError::internal(&message))
    }
}

/// Per-session sequence state backing PostgreSQL's `currval` semantics. `nextval`
/// and `setval` record the last value seen for a sequence on this connection;
/// `currval` reads it and errors when the sequence has not been used in-session.
#[derive(Debug)]
pub struct SessionSequenceState {
    currvals: HashMap<SequenceId, i64>,
}

/// What happens to the sequences of a session.
pub enum SequenceEvent {
    /// A value was seen for a sequence.
    Recorded(SequenceId, i64),
    /// Every sequence was forgotten.
    Reset,
}

/// The last values after some events, beginning with none.
pub open spec fn currvals_after(events: Seq<SequenceEvent>) -> Map<SequenceId, i64>
    decreases events.len(),
{
    if events.len() == 0 {
        Map::empty()
    } else {
        let before = currvals_after(events.drop_last());
        match events.last() {
            SequenceEvent::Recorded(sequence, value) => before.insert(sequence, value),
            SequenceEvent::Reset => Map::empty(),
        }
    }
}

/// The value was recorded for the sequence, and nothing since has changed or forgotten it.
pub open spec fn is_last_recorded(
    events: Seq<SequenceEvent>,
    sequence: SequenceId,
    value: i64,
) -> bool {
    exists|i: int|
        {
            &&& 0 <= i < events.len()
            &&& #[trigger] events[i] == SequenceEvent::Recorded(sequence, value)
            &&& forall|j: int|
                i < j < events.len() ==> match #[trigger] events[j] {
                    SequenceEvent::Recorded(other, _) => other != sequence,
                    SequenceEvent::Reset => false,
                }
        }
}

/// A session knows of a sequence exactly the value that was last recorded for it since
/// the sequences were last forgotten; other sequences never matter.
pub proof fn currval_is_the_last_recorded(
    events: Seq<SequenceEvent>,
    sequence: SequenceId,
    value: i64,
)
    ensures
        is_last_recorded(events, sequence, value) <==> currvals_after(events).contains_key(sequence)
            && currvals_after(events)[sequence] == value,
    decreases events.len(),
{
    if events.len() > 0 {
        let front = events.drop_last();
        let end = events.len() - 1;
        currval_is_the_last_recorded(front, sequence, value);
        assert(events[end] == events.last());
        if is_last_recorded(events, sequence, value) {
            let i = choose|i: int|
                {
                    &&& 0 <= i < events.len()
                    &&& #[trigger] events[i] == SequenceEvent::Recorded(sequence, value)
                    &&& forall|j: int|
                        i < j < events.len() ==> match #[trigger] events[j] {
                            SequenceEvent::Recorded(other, _) => other != sequence,
                            SequenceEvent::Reset => false,
                        }
                };
            if i < end {
                assert(front[i] == events[i]);
                assert forall|j: int| i < j < front.len() implies match #[trigger] front[j] {
                    SequenceEvent::Recorded(other, _) => other != sequence,
                    SequenceEvent::Reset => false,
                } by {
                    assert(front[j] == events[j]);
                }
                assert(is_last_recorded(front, sequence, value));
            }
        }
        if currvals_after(events).contains_key(sequence) && currvals_after(events)[sequence]
            == value {
            if events.last() == SequenceEvent::Recorded(sequence, value) {
                assert(events[end] == SequenceEvent::Recorded(sequence, value));
            } else {
                let i = choose|i: int|
                    {
                        &&& 0 <= i < front.len()
                        &&& #[trigger] front[i] == SequenceEvent::Recorded(sequence, value)
                        &&& forall|j: int|
                            i < j < front.len() ==> match #[trigger] front[j] {
                                SequenceEvent::Recorded(other, _) => other != sequence,
                                SequenceEvent::Reset => false,
                            }
                    };
                assert(events[i] == front[i]);
                assert forall|j: int| i < j < events.len() implies match #[trigger] events[j] {
                    SequenceEvent::Recorded(other, _) => other != sequence,
                    SequenceEvent::Reset => false,
                } by {
                    if j < end {
                        assert(front[j] == events[j]);
                    }
                }
            }
        }
    }
}

impl View for SessionSequenceState {
    type V = Map<SequenceId, i64>;

    closed spec fn view(&self) -> Map<SequenceId, i64> {
        self.currvals@
    }
}

impl Default for SessionSequenceState {
    fn default() -> (state: Self)
        ensures
            state@ == Map::<SequenceId, i64>::empty(),
    {
        SessionSequenceState::new()
    }
}

impl SessionSequenceState {
    pub fn new() -> (state: Self)
        ensures
            state@ == Map::<SequenceId, i64>::empty(),
    {
        SessionSequenceState { currvals: HashMap::new() }
    }

    /// Records the last value seen for a sequence.
    pub fn record_currval(&mut self, sequence: SequenceId, value: i64) -> (result: Result<()>)
        ensures
            result is Ok,
            final(self)@ == old(self)@.insert(sequence, value),
    {
        broadcast use vstd::std_specs::hash::group_hash_axioms;

        let _ = self.currvals.insert(sequence, value);
        Ok(())
    }

    /// The last value seen for a sequence, if it has been used.
    pub fn currval(&self, sequence: SequenceId) -> (result: Result<Option<i64>>)
        ensures
            result == Ok::<Option<i64>, DbError>(
                if self@.contains_key(sequence) {
                    Some(self@[sequence])
                } else {
                    None
                },
            ),
    {
        broadcast use vstd::std_specs::hash::group_hash_axioms;

        match self.currvals.get(&sequence) {
            Some(value) => Ok(Some(*value)),
            None => Ok(None),
        }
    }

    /// Forgets every sequence.
    pub fn reset_all(&mut self) -> (result: Result<()>)
        ensures
            result is Ok,
            final(self)@ == Map::<SequenceId, i64>::empty(),
    {
        broadcast use vstd::std_specs::hash::group_hash_axioms;

        self.currvals.clear();
        Ok(())
    }
}

/// Connection identity reported by system information functions
/// (`current_user`, `current_database()`, `pg_backend_pid()`, ...).
#[derive(Clone, Debug)]
pub struct SessionInfo {
    /// The startup `user` parameter.
    pub user: String,
    /// The startup `database` parameter, defaulted to the user name when omitted.
    pub database: String,
    /// The connection's cancellation-key process id (`BackendKeyData`).
    pub backend_pid: i32,
}

/// What identifies a connection.
pub struct SessionView {
    pub user: Seq<char>,
    pub database: Seq<char>,
    pub backend_pid: i32,
}

impl View for SessionInfo {
    type V = SessionView;

    open spec fn view(&self) -> SessionView {
        SessionView { user: self.user@, database: self.database@, backend_pid: self.backend_pid }
    }
}

impl PartialEq for SessionInfo {
    fn eq(&self, other: &Self) -> (equal: bool) {
        text::same_text(&self.user, &other.user) && text::same_text(&self.database, &other.database)
            && self.backend_pid == other.backend_pid
    }
}

impl vstd::std_specs::cmp::PartialEqSpecImpl for SessionInfo {
    open spec fn obeys_eq_spec() -> bool {
        true
    }

    open spec fn eq_spec(&self, other: &Self) -> bool {
        self@ == other@
    }
}

impl Eq for SessionInfo {

}

impl Default for SessionInfo {
    fn default() -> (info: Self)
        ensures
            info@ == (SessionView {
                user: "saguarodb"@,
                database: "saguarodb"@,
                backend_pid: 0,
            }),
    {
        let mut user: String = String::new();
        user.append("saguarodb");
        let mut database: String = String::new();
        database.append("saguarodb");
        assert(user@ =~= "saguarodb"@);
        assert(database@ =~= "saguarodb"@);
        SessionInfo { user, database, backend_pid: 0 }
    }
}

/// One row from the session configuration source shared by `SHOW ALL` and
/// `pg_catalog.pg_settings`.
#[derive(Clone, Debug, PartialEq, Eq)]
pub struct GucSetting {
    pub name: String,
    pub setting: String,
    pub boot_val: String,
    pub reset_val: String,
    pub source: String,
}

/// Coarse PostgreSQL-compatible activity state for `pg_stat_activity`.
#[derive(Clone, Copy, Debug, PartialEq, Eq, Structural)]
pub enum SessionState {
    Active,
    Idle,
    IdleInTransaction,
    IdleInTransactionAborted,
}

impl SessionState {
    /// The state as `pg_stat_activity` shows it.
    pub open spec fn spec_name(self) -> Seq<char> {
        match self {
            SessionState::Active => "active"@,
            SessionState::Idle => "idle"@,
            SessionState::IdleInTransaction => "idle in transaction"@,
            SessionState::IdleInTransactionAborted => "idle in transaction (aborted)"@,
        }
    }

    pub fn as_str(self) -> (name: &'static str)
        ensures
            name@ == self.spec_name(),
    {
        match self {
            SessionState::Active => "active",
            SessionState::Idle => "idle",
            SessionState::IdleInTransaction => "idle in transaction",
            SessionState::IdleInTransactionAborted => "idle in transaction (aborted)",
        }
    }
}

/// One activity row supplied to the virtual `pg_stat_activity` scan.
#[derive(Clone, Debug, PartialEq, Eq)]
pub struct SessionActivityRow {
    pub datid: i32,
    pub datname: String,
    pub pid: i32,
    pub usesysid: i32,
    pub usename: String,
    pub application_name: String,
    pub backend_start: i64,
    pub xact_start: Option<i64>,
    pub query_start: Option<i64>,
    pub state_change: Option<i64>,
    pub state: SessionState,
    pub query: String,
}

/// The value of the first setting from `start` on that has the name, whatever the case
/// of its ASCII letters.
pub open spec fn setting_named(settings: Seq<GucSetting>, name: Seq<char>, start: nat) -> Option<
    Seq<char>,
>
    decreases settings.len() - start,
{
    if start >= settings.len() {
        None
    } else if text::ascii_lowered(settings[start as int].name@) == text::ascii_lowered(name) {
        Some(settings[start as int].setting@)
    } else {
        setting_named(settings, name, start + 1)
    }
}

/// The value of the setting with the given name, whatever the case of its ASCII
/// letters.
pub fn find_setting(settings: &Vec<GucSetting>, name: &str) -> (setting: Option<String>)
    ensures
        match setting {
            Some(setting) => setting_named(settings@, name@, 0) == Some(setting@),
            None => setting_named(settings@, name@, 0) is None,
        },
{
    let wanted: Vec<char> = text::to_ascii_lowered(&text::chars_of(name));
    let mut i: usize = 0;
    while i < settings.len()
        invariant
            i <= settings@.len(),
            wanted@ == text::ascii_lowered(name@),
            setting_named(settings@, name@, 0) == setting_named(settings@, name@, i as nat),
        decreases settings@.len() - i,
    {
        let lower: Vec<char> = text::to_ascii_lowered(&text::chars_of(&settings[i].name));
        if text::same_chars(&lower, &wanted) {
            return Some(settings[i].setting.clone());
        }
        i += 1;
    }
    None
}

/// Server/session state consumed by virtual system catalogs.
pub trait SystemStateProvider: Send + Sync {
    fn settings(&self) -> Vec<GucSetting>;

    /// The value of one setting: by default, what [`find_setting`] finds in
    /// [`SystemStateProvider::settings`].
    fn setting(&self, name: &str) -> (setting: Option<String>)
        default_ensures
            exists|settings: Vec<GucSetting>| #[trigger]
                call_ensures(Self::settings, (self,), settings) && match setting {
                    Some(setting) => setting_named(settings@, name@, 0) == Some(setting@),
                    None => setting_named(settings@, name@, 0) is None,
                },
    {
        let settings: Vec<GucSetting> = self.settings();
        find_setting(&settings, name)
    }

    fn sessions(&self) -> Vec<SessionActivityRow>;
}

/// A server without settings and sessions.
#[derive(Debug)]
pub struct NoSystemStateProvider;

impl SystemStateProvider for NoSystemStateProvider {
    fn settings(&self) -> (settings: Vec<GucSetting>)
        ensures
            settings@.len() == 0,
    {
        Vec::new()
    }

    fn sessions(&self) -> (sessions: Vec<SessionActivityRow>)
        ensures
            sessions@.len() == 0,
    {
        Vec::new()
    }
}

pub fn no_system_state() -> (provider: NoSystemStateProvider)
    ensures
        provider == NoSystemStateProvider,
{
    NoSystemStateProvider
}

/// Rendered catalog facts consumed by PostgreSQL-compatible introspection
/// functions. The server implements this trait with primitive OID/name inputs. By
/// default nothing is known of the catalog, and an expression is rendered as it is.
pub trait CatalogIntrospectionProvider: Send + Sync {
    fn pg_get_indexdef(&self, _index_oid: i64, _column: Option<i64>, _pretty: bool) -> (result:
        Result<Option<String>>)
        default_ensures
            result == Ok::<Option<String>, DbError>(None),
    {
        Ok(None)
    }

    fn pg_get_constraintdef(&self, _constraint_oid: i64, _pretty: bool) -> (result: Result<
        Option<String>,
    >)
        default_ensures
            result == Ok::<Option<String>, DbError>(None),
    {
        Ok(None)
    }

    fn pg_get_expr(&self, expr: &str, _relation_oid: i64, _pretty: bool) -> (result: Result<
        Option<String>,
    >)
        default_ensures
            result is Ok && result->Ok_0 is Some && result->Ok_0->0@ == expr@,
    {
        let mut rendered: String = String::new();
        rendered.append(expr);
        assert(rendered@ =~= expr@);
        Ok(Some(rendered))
    }

    fn pg_get_userbyid(&self, _role_oid: i64) -> (result: Result<Option<String>>)
        default_ensures
            result == Ok::<Option<String>, DbError>(None),
    {
        Ok(None)
    }

    fn pg_table_is_visible(&self, _relation_oid: i64) -> (result: Result<bool>)
        default_ensures
            result == Ok::<bool, DbError>(false),
    {
        Ok(false)
    }

    fn to_regclass(&self, _name: &str) -> (result: Result<Option<i64>>)
        default_ensures
            result == Ok::<Option<i64>, DbError>(None),
    {
        Ok(None)
    }

    fn pg_get_serial_sequence(&self, _table: &str, _column: &str) -> (result: Result<
        Option<String>,
    >)
        default_ensures
            result == Ok::<Option<String>, DbError>(None),
    {
        Ok(None)
    }
}

/// A server that knows nothing of its catalog.
#[derive(Debug)]
pub struct NoCatalogIntrospectionProvider;

impl CatalogIntrospectionProvider for NoCatalogIntrospectionProvider {

}

pub fn no_catalog_introspection() -> (provider: NoCatalogIntrospectionProvider)
    ensures
        provider == NoCatalogIntrospectionProvider,
{
    NoCatalogIntrospectionProvider
}

/// Records what a `SERIALIZABLE` transaction reads (SIREAD locks) and forms
/// rw-antidependency edges when a write overwrites a concurrent read, so the server's
/// serializable-conflict manager can detect dangerous structures and abort to preserve
/// serializability. The executor's scan operators call the `record_*` methods; the
/// storage write paths call `note_write`. Only `SERIALIZABLE` transactions install the
/// real tracker; every other context keeps the no-op [`NoSsiTracker`], so Read
/// Committed / Repeatable Read pay nothing.
pub trait SsiTracker: Send + Sync {
    /// Record a point read of `(table, key)` by serializable transaction `reader` (an
    /// exact-key index lookup) - recorded even when no row matches, so a later insert
    /// of that key is caught as a phantom.
    fn record_tuple_read(&self, reader: TxnId, table: TableId, key: &Key);

    /// Record a scan / range read of the whole `table` by serializable `reader`.
    fn record_relation_read(&self, reader: TxnId, table: TableId);

    /// A write of `(table, key)` by serializable `writer`: form rw-edges from the
    /// concurrent SIREAD holders of the item to `writer`, then run edge-time
    /// dangerous-structure detection. Returns `Err` with `SerializationFailure`
    /// (`40001`) when `writer` is the SSI victim and must abort; otherwise `Ok`.
    fn note_write(&self, writer: TxnId, table: TableId, key: &Key) -> Result<()>;
}

/// The default no-op `SsiTracker` for non-serializable (Read Committed / Repeatable
/// Read) and pre-capture / test contexts: recording does nothing and `note_write`
/// returns `Ok`. Outside `SERIALIZABLE` there is no read tracking and a write never
/// fails an SSI check, so a silent no-op is correct here - in contrast to
/// [`NoConflictWaiter`], where a no-op would mask a mis-wired write path.
#[derive(Debug)]
pub struct NoSsiTracker;

impl SsiTracker for NoSsiTracker {
    fn record_tuple_read(&self, _reader: TxnId, _table: TableId, _key: &Key) {
    }

    fn record_relation_read(&self, _reader: TxnId, _table: TableId) {
    }

    fn note_write(&self, _writer: TxnId, _table: TableId, _key: &Key) -> (result: Result<()>)
        ensures
            result is Ok,
    {
        Ok(())
    }
}

/// `std::time::SystemTime::now`, as the microseconds since the Unix epoch, or `None`
/// if the clock is set to a time before that. Nothing is known of the reading.
#[verifier::external_body]
pub(crate) fn read_clock() -> (reading: Option<u128>) {
    match std::time::SystemTime::now().duration_since(std::time::UNIX_EPOCH) {
        Ok(elapsed) => Some(elapsed.as_micros()),
        Err(_) => None,
    }
}

/// The clock, when it was read, showed that.
pub open(crate) spec fn clock_showed(reading: Option<u128>) -> bool {
    call_ensures(read_clock, (), reading)
}

/// A reading of the clock as a timestamp: the epoch if it lies before that, and the
/// last timestamp there is if it lies behind that.
pub open spec fn micros_of_reading(reading: Option<u128>) -> int {
    match reading {
        Some(reading) => if reading > i64::MAX {
            i64::MAX as int
        } else {
            reading as int
        },
        None => 0,
    }
}

/// A reading of the clock as a timestamp.
pub fn timestamp_of_reading(reading: Option<u128>) -> (micros: i64)
    ensures
        micros == micros_of_reading(reading),
        micros >= 0,
{
    match reading {
        Some(reading) => {
            if reading > i64::MAX as u128 {
                i64::MAX
            } else {
                reading as i64
            }
        },
        None => 0,
    }
}

/// Per-statement execution context threaded into every storage operation: its value
/// fields. The services of the server (conflict waiter, sequence manager, trackers and
/// providers) travel beside it.
///
/// `snapshot` is the visibility snapshot threaded into the storage engine's read
/// paths. [`StatementContext::new`] fills it with the [`Snapshot::sees_all_committed`]
/// placeholder so pre-capture callers see every committed row and own write. It is
/// shared, so that a context can be cloned per scan operator cheaply.
#[derive(Clone, Debug)]
pub struct StatementContext {
    pub txn_id: u64,
    pub snapshot: Arc<Snapshot>,
    pub isolation: IsolationLevel,
    /// Statement start timestamp as UTC microseconds since the Unix epoch. SQL
    /// clock functions such as `CURRENT_TIMESTAMP` and `now()` read this value so
    /// repeated calls within one statement are stable.
    pub statement_timestamp_micros: i64,
    /// The reading/writing transaction's **live (sub)xid set** - `txn_id` plus any
    /// not-rolled-back savepoint subxids. A tuple whose `xmin`/`xmax` is in this set is
    /// the transaction's own (uncommitted) effect, visible to it and not a
    /// self-conflict. Defaults to just `[txn_id]` (no savepoints).
    pub live_txns: Arc<Vec<u64>>,
    /// The GC horizon (minimum advertised snapshot `xmin`) the server captured for
    /// this statement. A stale/smaller horizon only prunes less, never unsafely.
    /// Defaults to `0` (prune nothing committed-dead).
    pub gc_horizon: u64,
    /// Connection identity for system information functions.
    pub session_info: Arc<SessionInfo>,
}

/// Two snapshots with the same bounds and the same running transactions.
pub open spec fn same_snapshot(a: Snapshot, b: Snapshot) -> bool {
    a.xmin == b.xmin && a.xmax == b.xmax && a.xip@ == b.xip@
}

fn same_ids(a: &Vec<u64>, b: &Vec<u64>) -> (same: bool)
    ensures
        same == (a@ == b@),
{
    if a.len() != b.len() {
        return false;
    }
    let mut i: usize = 0;
    while i < a.len()
        invariant
            i <= a@.len(),
            a@.len() == b@.len(),
            forall|j: int| 0 <= j < i ==> a@[j] == b@[j],
        decreases a@.len() - i,
    {
        if a[i] != b[i] {
            assert(a@[i as int] != b@[i as int]);
            return false;
        }
        i += 1;
    }
    assert(a@ =~= b@);
    true
}

impl StatementContext {
    /// A context with nothing but its transaction and snapshot set.
    pub open spec fn is_plain(self, txn_id: u64, isolation: IsolationLevel) -> bool {
        &&& self.txn_id == txn_id
        &&& self.isolation == isolation
        &&& self.live_txns@ == seq![txn_id]
        &&& self.gc_horizon == 0
        &&& self.session_info@ == (SessionView {
            user: "saguarodb"@,
            database: "saguarodb"@,
            backend_pid: 0,
        })
        &&& self.statement_timestamp_micros >= 0
        &&& exists|reading: Option<u128>| #[trigger]
            clock_showed(reading) && self.statement_timestamp_micros == micros_of_reading(reading)
    }

    /// Construct a context for `txn_id` carrying the degenerate "sees all
    /// committed" snapshot ([`Snapshot::sees_all_committed`]) and the default
    /// isolation level. This is the placeholder used before real snapshot capture:
    /// every committed row and own write is visible, so the snapshot-aware read
    /// paths filter nothing. The timestamp is what the clock shows.
    pub fn new(txn_id: u64) -> (context: Self)
        ensures
            context.is_plain(txn_id, IsolationLevel::ReadCommitted),
            context.snapshot.xmin == u64::MAX,
            context.snapshot.xmax == u64::MAX,
            context.snapshot.xip@ == Seq::<TxnId>::empty(),
    {
        Self::with_snapshot(txn_id, Arc::new(Snapshot::sees_all_committed()))
    }

    /// Construct a context for `txn_id` carrying a shared, already-captured
    /// `snapshot` and the default isolation level. The timestamp is what the clock
    /// shows.
    pub fn with_snapshot(txn_id: u64, snapshot: Arc<Snapshot>) -> (context: Self)
        ensures
            context.is_plain(txn_id, IsolationLevel::ReadCommitted),
            context.snapshot == snapshot,
    {
        Self::with_snapshot_and_isolation(txn_id, snapshot, IsolationLevel::ReadCommitted)
    }

    /// Like [`StatementContext::with_snapshot`] but also carries an explicit
    /// `isolation` level (the server sets this from the active transaction).
    pub fn with_snapshot_and_isolation(
        txn_id: u64,
        snapshot: Arc<Snapshot>,
        isolation: IsolationLevel,
    ) -> (context: Self)
        ensures
            context.is_plain(txn_id, isolation),
            context.snapshot == snapshot,
    {
        let mut live_txns: Vec<u64> = Vec::new();
        live_txns.push(txn_id);
        assert(live_txns@ =~= seq![txn_id]);
        let reading: Option<u128> = read_clock();
        assert(clock_showed(reading));
        StatementContext {
            txn_id,
            snapshot,
            isolation,
            statement_timestamp_micros: timestamp_of_reading(reading),
            live_txns: Arc::new(live_txns),
            gc_horizon: 0,
            session_info: Arc::new(SessionInfo::default()),
        }
    }

    /// Set the GC horizon for this statement. Builder-style.
    #[must_use]
    pub fn with_gc_horizon(self, gc_horizon: u64) -> (context: Self)
        ensures
            context == (StatementContext { gc_horizon, ..self }),
    {
        let mut context: Self = self;
        context.gc_horizon = gc_horizon;
        context
    }

    /// Set the transaction's live (sub)xid set (for a transaction with savepoints; see
    /// the `live_txns` field). Builder-style.
    #[must_use]
    pub fn with_live_txns(self, live_txns: Arc<Vec<u64>>) -> (context: Self)
        ensures
            context == (StatementContext { live_txns, ..self }),
    {
        let mut context: Self = self;
        context.live_txns = live_txns;
        context
    }

    /// Override this statement's timestamp. Builder-style.
    #[must_use]
    pub fn with_statement_timestamp_micros(self, statement_timestamp_micros: i64) -> (context: Self)
        ensures
            context == (StatementContext { statement_timestamp_micros, ..self }),
    {
        let mut context: Self = self;
        context.statement_timestamp_micros = statement_timestamp_micros;
        context
    }

    /// Install the connection identity used by system information functions.
    #[must_use]
    pub fn with_session_info(self, session_info: Arc<SessionInfo>) -> (context: Self)
        ensures
            context == (StatementContext { session_info, ..self }),
    {
        let mut context: Self = self;
        context.session_info = session_info;
        context
    }

    /// Advance `sequence` via [`SequenceManager::nextval`] and record the returned
    /// value as this session's `currval`, returning the new value. Shared by the
    /// `nextval(...)` expression and the INSERT/COPY `DEFAULT nextval` path so both
    /// keep the `currval` bookkeeping identical. Nothing is recorded where the
    /// manager fails.
    pub fn nextval_recording_currval<M: SequenceManager>(
        &self,
        sequence_manager: &M,
        session_sequences: &mut SessionSequenceState,
        sequence: SequenceId,
    ) -> (result: Result<i64>)
        ensures
            call_ensures(M::nextval, (sequence_manager, self.txn_id, sequence), result),
            match result {
                Ok(value) => final(session_sequences)@ == old(session_sequences)@.insert(
                    sequence,
                    value,
                ),
                Err(_) => final(session_sequences)@ == old(session_sequences)@,
            },
    {
        match sequence_manager.nextval(self.txn_id, sequence) {
            Ok(value) => match session_sequences.record_currval(sequence, value) {
                Ok(_) => Ok(value),
                Err(error) => Err(error),
            },
            Err(error) => Err(error),
        }
    }
}

impl PartialEq for StatementContext {
    /// Two contexts are equal when their value fields match, but for the timestamp.
    fn eq(&self, other: &Self) -> (equal: bool) {
        self.txn_id == other.txn_id && self.snapshot.xmin == other.snapshot.xmin
            && self.snapshot.xmax == other.snapshot.xmax && same_ids(
            &self.snapshot.xip,
            &other.snapshot.xip,
        ) && self.isolation == other.isolation && same_ids(&self.live_txns, &other.live_txns)
            && self.gc_horizon == other.gc_horizon && *self.session_info == *other.session_info
    }
}

impl vstd::std_specs::cmp::PartialEqSpecImpl for StatementContext {
    open spec fn obeys_eq_spec() -> bool {
        true
    }

    open spec fn eq_spec(&self, other: &Self) -> bool {
        self.txn_id == other.txn_id && same_snapshot(*self.snapshot, *other.snapshot)
            && self.isolation == other.isolation && self.live_txns@ == other.live_txns@
            && self.gc_horizon == other.gc_horizon && self.session_info@ == other.session_info@
    }
}

impl Eq for StatementContext {

}

/// A setting is found by its name in any case: what is found is the value of the first
/// setting whose name is the same but for the case of its letters, and nothing is found
/// only where there is none.
pub proof fn settings_are_found_by_name(settings: Seq<GucSetting>, name: Seq<char>)
    ensures
        ({
            let alike = |i: int|
                {
                    let other = settings[i].name@;
                    &&& other.len() == name.len()
                    &&& forall|k: int|
                        0 <= k < name.len() ==> {
                            let (x, y) = (#[trigger] other[k] as int, name[k] as int);
                            ||| x == y
                            ||| 65 <= x <= 90 && y == x + 32
                            ||| 65 <= y <= 90 && x == y + 32
                        }
                };
            match setting_named(settings, name, 0) {
                Some(value) => exists|i: int|
                    {
                        &&& 0 <= i < settings.len()
                        &&& #[trigger] alike(i)
                        &&& settings[i].setting@ == value
                        &&& forall|j: int| 0 <= j < i ==> !(#[trigger] alike(j))
                    },
                None => forall|i: int| 0 <= i < settings.len() ==> !(#[trigger] alike(i)),
            }
        }),
{
    let alike = |i: int|
        {
            let other = settings[i].name@;
            &&& other.len() == name.len()
            &&& forall|k: int|
                0 <= k < name.len() ==> {
                    let (x, y) = (#[trigger] other[k] as int, name[k] as int);
                    ||| x == y
                    ||| 65 <= x <= 90 && y == x + 32
                    ||| 65 <= y <= 90 && x == y + 32
                }
        };
    assert forall|i: int| 0 <= i < settings.len() implies #[trigger] alike(i) == (
    text::ascii_lowered(settings[i].name@) == text::ascii_lowered(name)) by {
        lemma_same_but_for_case(settings[i].name@, name);
    }
    lemma_first_setting(settings, name, 0);
    match setting_named(settings, name, 0) {
        Some(value) => {
            let i = choose|i: int|
                {
                    &&& 0 <= i < settings.len()
                    &&& text::ascii_lowered((#[trigger] settings[i]).name@) == text::ascii_lowered(
                        name,
                    )
                    &&& settings[i].setting@ == value
                    &&& forall|j: int|
                        0 <= j < i ==> text::ascii_lowered((#[trigger] settings[j]).name@)
                            != text::ascii_lowered(name)
                };
            assert(alike(i));
            assert forall|j: int| 0 <= j < i implies !(#[trigger] alike(j)) by {
                assert(text::ascii_lowered(settings[j].name@) != text::ascii_lowered(name));
            }
        },
        None => {
            assert forall|i: int| 0 <= i < settings.len() implies !(#[trigger] alike(i)) by {
                assert(text::ascii_lowered(settings[i].name@) != text::ascii_lowered(name));
            }
        },
    }
}

proof fn lemma_first_setting(settings: Seq<GucSetting>, name: Seq<char>, start: nat)
    ensures
        match setting_named(settings, name, start) {
            Some(value) => exists|i: int|
                {
                    &&& start <= i < settings.len()
                    &&& text::ascii_lowered((#[trigger] settings[i]).name@) == text::ascii_lowered(
                        name,
                    )
                    &&& settings[i].setting@ == value
                    &&& forall|j: int|
                        start <= j < i ==> text::ascii_lowered((#[trigger] settings[j]).name@)
                            != text::ascii_lowered(name)
                },
            None => forall|i: int|
                start <= i < settings.len() ==> text::ascii_lowered((#[trigger] settings[i]).name@)
                    != text::ascii_lowered(name),
        },
    decreases settings.len() - start,
{
    if start < settings.len() {
        assert(settings[start as int] == settings[start as int]);
        lemma_first_setting(settings, name, start + 1);
    }
}

proof fn lemma_same_but_for_case(a: Seq<char>, b: Seq<char>)
    ensures
        text::ascii_lowered(a) == text::ascii_lowered(b) <==> a.len() == b.len() && forall|k: int|
            0 <= k < b.len() ==> {
                let (x, y) = (#[trigger] a[k] as int, b[k] as int);
                ||| x == y
                ||| 65 <= x <= 90 && y == x + 32
                ||| 65 <= y <= 90 && x == y + 32
            },
{
    let (x, y) = (text::ascii_lowered(a), text::ascii_lowered(b));
    if x == y {
        assert(a.len() == x.len() && b.len() == y.len());
        assert forall|k: int| 0 <= k < b.len() implies {
            let (x, y) = (#[trigger] a[k] as int, b[k] as int);
            ||| x == y
            ||| 65 <= x <= 90 && y == x + 32
            ||| 65 <= y <= 90 && x == y + 32
        } by {
            assert(x[k] == text::ascii_lower(a[k]));
            assert(y[k] == text::ascii_lower(b[k]));
        }
    } else if a.len() == b.len() && forall|k: int|
        0 <= k < b.len() ==> {
            let (x, y) = (#[trigger] a[k] as int, b[k] as int);
            ||| x == y
            ||| 65 <= x <= 90 && y == x + 32
            ||| 65 <= y <= 90 && x == y + 32
        } {
        assert forall|k: int| 0 <= k < x.len() implies #[trigger] x[k] == y[k] by {
            let (p, q) = (a[k] as int, b[k] as int);
        }
        assert(x =~= y);
    }
}

/// A reading of the clock becomes the timestamp of the same moment, no earlier than the
/// epoch and no later than the last timestamp that there is.
pub proof fn readings_become_timestamps(reading: Option<u128>, micros: i64)
    requires
        call_ensures(timestamp_of_reading, (reading,), micros),
    ensures
        micros >= 0,
        reading is None ==> micros == 0,
        reading is Some && reading->0 <= i64::MAX ==> micros == reading->0,
        reading is Some && reading->0 > i64::MAX ==> micros == i64::MAX,
{
}

/// A new context belongs to its transaction alone, reads what is committed, whichever
/// transaction has committed it, and lets nothing be reclaimed.
pub proof fn contexts_begin_with_their_transaction(txn_id: u64, context: StatementContext, other: u64)
    requires
        call_ensures(StatementContext::new, (txn_id,), context),
    ensures
        context.txn_id == txn_id,
        context.live_txns@.contains(other) <==> other == txn_id,
        context.isolation is ReadCommitted,
        other < u64::MAX ==> other < context.snapshot.xmax && !context.snapshot.xip@.contains(other),
        context.gc_horizon == 0,
        context.statement_timestamp_micros >= 0,
{
    if other == txn_id {
        assert(context.live_txns@[0] == other);
    }
}

/// A context with a snapshot has that snapshot and isolation, and is otherwise as new.
pub proof fn contexts_carry_their_snapshot(
    txn_id: u64,
    snapshot: Arc<Snapshot>,
    isolation: IsolationLevel,
    context: StatementContext,
)
    requires
        call_ensures(
            StatementContext::with_snapshot_and_isolation,
            (txn_id, snapshot, isolation),
            context,
        ),
    ensures
        context.txn_id == txn_id,
        context.snapshot == snapshot,
        context.isolation == isolation,
        context.live_txns@ == seq![txn_id],
        context.gc_horizon == 0,
{
}

/// To set one thing of a context changes that thing and nothing else.
pub proof fn settings_change_one_thing(
    context: StatementContext,
    horizon: u64,
    live: Arc<Vec<u64>>,
    micros: i64,
    session: Arc<SessionInfo>,
    a: StatementContext,
    b: StatementContext,
    c: StatementContext,
    d: StatementContext,
)
    requires
        call_ensures(StatementContext::with_gc_horizon, (context, horizon), a),
        call_ensures(StatementContext::with_live_txns, (a, live), b),
        call_ensures(StatementContext::with_statement_timestamp_micros, (b, micros), c),
        call_ensures(StatementContext::with_session_info, (c, session), d),
    ensures
        d.txn_id == context.txn_id,
        d.snapshot == context.snapshot,
        d.isolation == context.isolation,
        d.gc_horizon == horizon,
        d.live_txns == live,
        d.statement_timestamp_micros == micros,
        d.session_info == session,
        a.live_txns == context.live_txns,
        b.statement_timestamp_micros == context.statement_timestamp_micros,
        c.session_info == context.session_info,
{
}

/// Equal contexts agree in everything but the time of their statements, which does not
/// count.
pub proof fn equal_contexts_differ_in_time_alone(a: StatementContext, b: StatementContext)
    ensures
        vstd::std_specs::cmp::PartialEqSpec::eq_spec(&a, &b) <==> {
            &&& a.txn_id == b.txn_id
            &&& a.isolation == b.isolation
            &&& a.gc_horizon == b.gc_horizon
            &&& a.live_txns@ == b.live_txns@
            &&& a.snapshot.xmin == b.snapshot.xmin
            &&& a.snapshot.xmax == b.snapshot.xmax
            &&& a.snapshot.xip@ == b.snapshot.xip@
            &&& a.session_info.user@ == b.session_info.user@
            &&& a.session_info.database@ == b.session_info.database@
            &&& a.session_info.backend_pid == b.session_info.backend_pid
        },
{
}

/// The states of a session have different names: one that runs a statement is active, and
/// the others are idle, which says so if it is within a transaction, and if that has failed.
pub proof fn states_are_named_by_what_is_open(state: SessionState)
    ensures
        state is Active ==> state.spec_name() == "active"@,
        !(state is Active) ==> state.spec_name().take(4) == "idle"@,
        state is Idle <==> state.spec_name() == "idle"@,
        state is IdleInTransaction || state is IdleInTransactionAborted
            <==> state.spec_name().len() >= 19 && state.spec_name().take(19)
            == "idle in transaction"@,
        state is IdleInTransactionAborted <==> state.spec_name().len() > 19
            && state.spec_name().skip(19) == " (aborted)"@,
{
    reveal_strlit("active");
    reveal_strlit("idle");
    reveal_strlit("idle in transaction");
    reveal_strlit("idle in transaction (aborted)");
    reveal_strlit(" (aborted)");
    assert("idle"@.take(4) =~= "idle"@);
    assert("idle in transaction"@.take(4) =~= "idle"@);
    assert("idle in transaction"@.take(19) =~= "idle in transaction"@);
    assert("idle in transaction (aborted)"@.take(4) =~= "idle"@);
    assert("idle in transaction (aborted)"@.take(19) =~= "idle in transaction"@);
    assert("idle in transaction (aborted)"@.skip(19) =~= " (aborted)"@);
    assert("idle"@.len() == 4 && "active"@.len() == 6);
}

} // verus!
