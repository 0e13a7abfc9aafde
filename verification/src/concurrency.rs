//! Lifetime tracking of write units.

use vstd::prelude::*;

use crate::cancel::{self, QueryCancel};
use crate::error::{self, Result, SqlState};

verus! {

/// Compatibility boundary for write-unit lifetime tracking.
///
/// Checkpoints do not participate in this controller. The returned token marks the
/// lifetime of a write unit in transaction state.
pub trait ConcurrencyController: Send + Sync {
    fn begin_writer(&self) -> Result<WriteGuard>;

    /// Starts a writer, unless the statement has been canceled.
    fn begin_writer_cancelable(&self, cancel: &QueryCancel) -> (result: Result<WriteGuard>)
        default_ensures
            cancel@ is Some ==> result is Err && result->Err_0@ == error::execute_error(
                SqlState::QueryCanceled,
                cancel::cancel_message(cancel@->0),
            ),
            cancel@ is None ==> call_ensures(Self::begin_writer, (self,), result),
    {
        match cancel.check() {
            Ok(_) => self.begin_writer(),
            Err(error) => Err(error),
        }
    }

    fn begin_shared(&self) -> (result: Result<WriteGuard>)
        default_ensures
            call_ensures(Self::begin_writer, (self,), result),
    {
        self.begin_writer()
    }

    fn begin_shared_cancelable(&self, cancel: &QueryCancel) -> (result: Result<WriteGuard>)
        default_ensures
            call_ensures(Self::begin_writer_cancelable, (self, cancel), result),
    {
        self.begin_writer_cancelable(cancel)
    }
}

#[derive(Debug, Default)]
pub struct RwLockConcurrencyController;

impl RwLockConcurrencyController {
    pub fn new() -> (controller: Self)
        ensures
            controller == RwLockConcurrencyController,
    {
        RwLockConcurrencyController
    }
}

impl ConcurrencyController for RwLockConcurrencyController {
    fn begin_writer(&self) -> (result: Result<WriteGuard>)
        ensures
            result is Ok,
    {
        Ok(WriteGuard { _private: () })
    }
}

/// A non-blocking write-unit lifetime token. It never excludes a checkpoint or
/// another writer.
pub struct WriteGuard {
    _private: (),
}

} // verus!
