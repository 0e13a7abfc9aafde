use std::sync::{Arc, Mutex};

use saguaro_common::checkpoint::CatalogRedoTracker;
use saguaro_common::context::{
    find_setting, timestamp_of_reading, NoConflictWaiter, NoSequenceManager, NoSsiTracker,
};
use saguaro_common::{
    CancelReason, CheckedSliceReader, ConcurrencyController, ConflictWaiter, CopyFormat,
    CopyOptions, DbError, ErrorKind, ExecRow, GucSetting, IsolationLevel, Key, QueryCancel, Row,
    RowId, RowIdentity, RwLockConcurrencyController, SequenceManager, SessionInfo,
    SessionSequenceState, SessionState, SliceReadErrorKind, Snapshot, SqlState, SsiTracker,
    StatementContext, TupleLockGrantChange, TupleLockMode, Value, WriteGuard,
};

#[test]
fn first_cancellation_reason_wins_until_reset() {
    let mut cancel = QueryCancel::new();
    cancel.request(CancelReason::StatementTimeout);
    cancel.request(CancelReason::UserRequest);
    assert_eq!(cancel.reason(), Some(CancelReason::StatementTimeout));
    assert!(cancel
        .check()
        .unwrap_err()
        .message
        .contains("statement timeout"));

    cancel.reset();
    assert_eq!(cancel.reason(), None);
    assert!(cancel.check().is_ok());
}

#[test]
fn a_user_request_cancels_too() {
    let mut cancel = QueryCancel::new();
    cancel.request(CancelReason::UserRequest);
    let error = cancel.check().unwrap_err();
    assert_eq!(error.code, SqlState::QueryCanceled);
    assert_eq!(error.message, "canceling statement due to user request");
}

#[test]
fn reads_fixed_width_values_and_tracks_position() {
    let mut reader = CheckedSliceReader::new(&[0x34, 0x12, 0, 0, 0, 7]);
    assert_eq!(reader.read_u16_le().unwrap(), 0x1234);
    assert_eq!(reader.read_i32_be().unwrap(), 7);
    assert_eq!(reader.position(), 6);
    assert_eq!(reader.remaining(), 0);
    reader.finish().unwrap();
}

#[test]
fn failed_reads_do_not_advance() {
    let mut reader = CheckedSliceReader::new(&[1, 2]);
    let err = reader.take(3).unwrap_err();
    assert_eq!(err.kind(), SliceReadErrorKind::Truncated);
    assert_eq!(reader.position(), 0);
    assert_eq!(reader.take(2).unwrap(), &[1, 2]);
}

#[test]
fn rejects_position_and_length_overflow() {
    let bytes = [0];
    let err = CheckedSliceReader::at(&bytes, 2).unwrap_err();
    assert_eq!(err.kind(), SliceReadErrorKind::PositionOutOfBounds);

    let mut reader = CheckedSliceReader::at(&bytes, 1).unwrap();
    let err = reader.take(usize::MAX).unwrap_err();
    assert_eq!(err.kind(), SliceReadErrorKind::LengthOverflow);
}

#[test]
fn finish_rejects_trailing_bytes() {
    let err = CheckedSliceReader::new(&[1]).finish().unwrap_err();
    assert_eq!(err.kind(), SliceReadErrorKind::TrailingBytes);
    assert_eq!(err.remaining(), 1);
    assert_eq!(err.message(), "1 trailing bytes remain at position 0");
}

#[test]
fn reads_arrays_and_the_rest() {
    let mut reader = CheckedSliceReader::new(&[1, 2, 3, 4, 5]);
    assert_eq!(reader.read_array::<3>().unwrap(), [1, 2, 3]);
    let error = reader.read_array::<3>().unwrap_err();
    assert_eq!(
        error.message(),
        "byte range at 3 needs 3 bytes but only 2 remain"
    );
    assert_eq!(reader.take_remaining().unwrap(), &[4, 5]);
}

#[test]
fn readers_go_forward_whatever_is_read() {
    let bytes = [1, 2, 3, 4, 5];
    let mut reader = CheckedSliceReader::at(&bytes, 1).unwrap();
    assert_eq!((reader.position(), reader.remaining()), (1, 4));
    assert!(reader.take(9).is_err());
    assert_eq!((reader.position(), reader.remaining()), (1, 4));
    assert_eq!(reader.read_u8().unwrap(), 2);
    assert_eq!((reader.position(), reader.remaining()), (2, 3));
    assert_eq!(reader.take_remaining().unwrap(), &[3, 4, 5]);
    assert_eq!((reader.position(), reader.remaining()), (5, 0));
    assert!(reader.take_remaining().unwrap().is_empty());
    assert_eq!((reader.position(), reader.remaining()), (5, 0));
}

#[test]
fn redo_pins_only_fall_while_they_are_held() {
    let mut tracker = CatalogRedoTracker::default();
    tracker.resolve(1).unwrap();
    assert_eq!(tracker.oldest_pending().unwrap(), None);
    tracker.register(1, 50).unwrap();
    tracker.register(2, 70).unwrap();
    assert_eq!(tracker.oldest_pending().unwrap(), Some(50));
    tracker.register(1, 90).unwrap();
    assert_eq!(tracker.oldest_pending().unwrap(), Some(50));
    tracker.resolve(3).unwrap();
    assert_eq!(tracker.oldest_pending().unwrap(), Some(50));
    tracker.resolve(1).unwrap();
    assert_eq!(tracker.oldest_pending().unwrap(), Some(70));
}

#[test]
fn retains_each_transactions_earliest_boundary() {
    let mut tracker = CatalogRedoTracker::default();
    tracker.register(7, 40).unwrap();
    tracker.register(7, 60).unwrap();
    tracker.register(7, 20).unwrap();
    tracker.register(8, 30).unwrap();

    assert_eq!(tracker.oldest_pending().unwrap(), Some(20));
    tracker.resolve(7).unwrap();
    assert_eq!(tracker.oldest_pending().unwrap(), Some(30));
    tracker.resolve(8).unwrap();
    assert_eq!(tracker.oldest_pending().unwrap(), None);
}

#[test]
fn guard_satisfies_thread_safety_contract() {
    fn assert_send<T: Send>() {}
    fn assert_sync<T: Sync>() {}

    assert_send::<WriteGuard>();
    assert_sync::<WriteGuard>();
}

#[test]
fn cancelable_acquisition_checks_pending_cancellation() {
    let controller = RwLockConcurrencyController::new();
    let mut cancel = QueryCancel::new();
    cancel.request(CancelReason::StatementTimeout);
    let error = match controller.begin_writer_cancelable(&cancel) {
        Ok(_) => panic!("canceled writer unexpectedly acquired a token"),
        Err(error) => error,
    };
    assert_eq!(error.code, SqlState::QueryCanceled);
}

#[test]
fn writers_that_are_not_canceled_start() {
    let controller = RwLockConcurrencyController::new();
    assert!(controller.begin_writer().is_ok());
    assert!(controller.begin_shared().is_ok());
    assert!(controller.begin_shared_cancelable(&QueryCancel::new()).is_ok());
}

#[test]
fn default_conflict_waiter_errors_rather_than_spinning() {
    // A read/test context's waiter must never be asked to wait (a real
    // WouldBlock only arises on a write path with the real lock manager). If it
    // ever is, it errors loudly instead of returning Ok and spinning forever.
    let waiter = NoConflictWaiter;
    let err = waiter
        .wait_for(7, 8, &QueryCancel::new())
        .expect_err("default waiter must error, not return Ok");
    assert!(err.message.contains("no conflict waiter configured"));
}

#[test]
fn new_sets_txn_id_and_placeholder_fields() {
    let ctx = StatementContext::new(42);
    assert_eq!(ctx.txn_id, 42);
    // The placeholder is the degenerate "sees all committed" snapshot, not the
    // empty (sees-nothing) one, so pre-capture reads return committed rows.
    assert_eq!(*ctx.snapshot, Snapshot::sees_all_committed());
    assert_eq!(ctx.isolation, IsolationLevel::ReadCommitted);
}

#[test]
fn contexts_with_same_txn_id_are_equal() {
    assert_eq!(StatementContext::new(7), StatementContext::new(7));
    assert_ne!(StatementContext::new(7), StatementContext::new(8));
}

#[test]
fn statement_timestamp_is_stable_and_not_part_of_context_identity() {
    let ctx = StatementContext::new(7).with_statement_timestamp_micros(123);
    assert_eq!(ctx.statement_timestamp_micros, 123);
    assert_eq!(
        ctx,
        StatementContext::new(7).with_statement_timestamp_micros(456)
    );
}

#[test]
fn default_session_info_names_the_single_database() {
    let ctx = StatementContext::new(1);
    assert_eq!(ctx.session_info.user, "saguarodb");
    assert_eq!(ctx.session_info.database, "saguarodb");
    assert_eq!(ctx.session_info.backend_pid, 0);

    let custom = Arc::new(SessionInfo {
        user: "ada".to_string(),
        database: "mainframe".to_string(),
        backend_pid: 7,
    });
    let ctx = StatementContext::new(1).with_session_info(custom.clone());
    assert_eq!(ctx.session_info, custom);
}

#[test]
fn default_ssi_tracker_is_a_no_op() {
    // Outside SERIALIZABLE there is no read tracking and a write never fails an
    // SSI check: recording is a no-op and `note_write` returns Ok (unlike the
    // conflict waiter, whose default errors). Equality ignores the tracker.
    let ctx = StatementContext::new(7);
    let tracker = NoSsiTracker;
    let key = Key(vec![Value::Integer(1)]);
    tracker.record_tuple_read(7, 1, &key);
    tracker.record_relation_read(7, 1);
    assert!(tracker.note_write(7, 1, &key).is_ok());
    assert_eq!(ctx, StatementContext::new(7));
}

#[test]
fn contexts_carry_what_they_are_given() {
    let ctx = StatementContext::with_snapshot_and_isolation(
        3,
        Arc::new(Snapshot::empty()),
        IsolationLevel::RepeatableRead,
    )
    .with_gc_horizon(9)
    .with_live_txns(Arc::new(vec![3, 4]));
    assert_eq!(*ctx.snapshot, Snapshot::empty());
    assert_eq!(ctx.isolation, IsolationLevel::RepeatableRead);
    assert_eq!(ctx.gc_horizon, 9);
    assert_eq!(*ctx.live_txns, vec![3, 4]);
}

struct Counting;

impl SequenceManager for Counting {
    fn sequence_exists(&self, _sequence: u32) -> Result<bool, DbError> {
        Ok(true)
    }

    fn nextval(&self, _txn_id: u64, sequence: u32) -> Result<i64, DbError> {
        Ok(i64::from(sequence) + 1)
    }

    fn setval(
        &self,
        _txn_id: u64,
        _sequence: u32,
        value: i64,
        _is_called: bool,
    ) -> Result<i64, DbError> {
        Ok(value)
    }
}

#[test]
fn the_value_of_a_sequence_is_remembered_for_the_session() {
    let ctx = StatementContext::new(1);
    let mut session = SessionSequenceState::new();
    assert_eq!(session.currval(4).unwrap(), None);
    assert_eq!(
        ctx.nextval_recording_currval(&Counting, &mut session, 4).unwrap(),
        5
    );
    assert_eq!(session.currval(4).unwrap(), Some(5));
    session.reset_all().unwrap();
    assert_eq!(session.currval(4).unwrap(), None);
    let error = ctx
        .nextval_recording_currval(&NoSequenceManager, &mut session, 4)
        .unwrap_err();
    assert_eq!(error.kind, ErrorKind::Internal);
    assert_eq!(session.currval(4).unwrap(), None);
}

#[test]
fn sequences_keep_their_own_last_value() {
    let mut session = SessionSequenceState::new();
    session.record_currval(1, 10).unwrap();
    session.record_currval(2, 20).unwrap();
    session.record_currval(1, 11).unwrap();
    assert_eq!(session.currval(1).unwrap(), Some(11));
    assert_eq!(session.currval(2).unwrap(), Some(20));
    session.reset_all().unwrap();
    session.record_currval(2, 21).unwrap();
    assert_eq!(session.currval(1).unwrap(), None);
    assert_eq!(session.currval(2).unwrap(), Some(21));
}

#[test]
fn settings_are_found_by_name() {
    let settings = vec![GucSetting {
        name: "search_path".to_string(),
        setting: "public".to_string(),
        boot_val: "public".to_string(),
        reset_val: "public".to_string(),
        source: "default".to_string(),
    }];
    assert_eq!(find_setting(&settings, "search_path"), Some("public".to_string()));
    assert_eq!(find_setting(&settings, "missing"), None);
    assert_eq!(SessionState::Idle.as_str(), "idle");
}

#[test]
fn clock_readings_become_timestamps() {
    assert_eq!(timestamp_of_reading(Some(1_000_000)), 1_000_000);
    assert_eq!(timestamp_of_reading(Some(u128::MAX)), i64::MAX);
    assert_eq!(timestamp_of_reading(None), 0);
}

#[test]
fn exec_row_identity_is_independent_of_projected_values() {
    let identity = RowIdentity {
        row_id: RowId {
            page_num: 3,
            slot_num: 9,
        },
        key: Key(vec![Value::Integer(42)]),
    };

    let row = ExecRow {
        row: Row {
            values: vec![Value::Text("projected".to_string())],
        },
        identity: Some(identity.clone()),
    };

    assert_eq!(row.identity, Some(identity));
}

#[test]
fn value_order_is_deterministic_across_variants() {
    let values = vec![
        Value::Text("a".to_string()),
        Value::Integer(7),
        Value::Null,
        Value::Boolean(false),
        Value::Boolean(true),
    ];

    let mut sorted = values.clone();
    sorted.sort_by(|a, b| a.partial_cmp(b).unwrap());

    assert_eq!(
        sorted,
        vec![
            Value::Null,
            Value::Boolean(false),
            Value::Boolean(true),
            Value::Integer(7),
            Value::Text("a".to_string()),
        ]
    );
}

#[test]
fn keys_are_ordered_value_by_value() {
    let a = Key(vec![Value::Integer(1), Value::Integer(9)]);
    let b = Key(vec![Value::Integer(2)]);
    let c = Key(vec![Value::Integer(2), Value::Null]);
    assert!(a < b && b < c && a < c);
    assert_eq!(b.clone(), b);
}

#[test]
fn clones_share_pending_state() {
    let tracker = Arc::new(Mutex::new(CatalogRedoTracker::default()));
    let clone = Arc::clone(&tracker);
    tracker.lock().unwrap().register(9, 11).unwrap();
    assert_eq!(clone.lock().unwrap().oldest_pending().unwrap(), Some(11));
    clone.lock().unwrap().resolve(9).unwrap();
    assert_eq!(tracker.lock().unwrap().oldest_pending().unwrap(), None);
}

#[test]
fn reads_numbers_of_either_byte_order() {
    let mut reader = CheckedSliceReader::new(&[9, 0xFF, 0xFE, 1, 2, 3, 4, 5, 6, 7, 8]);
    assert_eq!(reader.read_u8().unwrap(), 9);
    assert_eq!(reader.read_i16_be().unwrap(), -2);
    assert_eq!(reader.read_u64_le().unwrap(), 0x0807_0605_0403_0201);
    assert_eq!(
        reader.read_u8().unwrap_err().message(),
        "byte range at 11 needs 1 bytes but only 0 remain"
    );
    assert_eq!(
        CheckedSliceReader::at(&[0], 2).unwrap_err().message(),
        "byte position 2 is outside the input"
    );
}

#[test]
fn copy_defaults_depend_on_the_format() {
    let text = CopyOptions::defaults_for(CopyFormat::Text);
    assert_eq!((text.delimiter, text.null_string.as_str()), ('\t', "\\N"));
    let csv = CopyOptions::defaults_for(CopyFormat::Csv);
    assert_eq!((csv.delimiter, csv.null_string.as_str()), (',', ""));
    assert_eq!((csv.quote, csv.escape, csv.header), ('"', '"', false));
}

#[test]
fn receipts_keep_what_the_lock_manager_put_in() {
    let change = TupleLockGrantChange::manager_receipt(41u64);
    assert_eq!(change.manager_payload(), Some(&41));
    assert!(TupleLockMode::KeyShare < TupleLockMode::Update);
}
