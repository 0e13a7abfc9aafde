//! Cancellation of the statement that a connection executes.

use vstd::prelude::*;

use crate::error::{self, DbError, Result, SqlState};

verus! {

/// Why the currently executing statement was canceled.
#[derive(Clone, Copy, Debug, PartialEq, Eq, Structural)]
pub enum CancelReason {
    UserRequest,
    StatementTimeout,
}

/// What a canceled statement reports.
pub open spec fn cancel_message(reason: CancelReason) -> Seq<char> {
    match reason {
        CancelReason::UserRequest => "canceling statement due to user request"@,
        CancelReason::StatementTimeout => "canceling statement due to statement timeout"@,
    }
}

/// What is on record after a request: the first one stays.
pub open spec fn requested(before: Option<CancelReason>, reason: CancelReason) -> Option<
    CancelReason,
> {
    if before is None {
        Some(reason)
    } else {
        before
    }
}

/// What is on record after some requests.
pub open spec fn all_requested(
    before: Option<CancelReason>,
    reasons: Seq<CancelReason>,
) -> Option<CancelReason>
    decreases reasons.len(),
{
    if reasons.len() == 0 {
        before
    } else {
        requested(all_requested(before, reasons.drop_last()), reasons.last())
    }
}

/// However many requests come, the first one wins.
pub proof fn the_first_request_wins(
    before: Option<CancelReason>,
    reasons: Seq<CancelReason>,
)
    ensures
        all_requested(before, reasons) == if before is None && reasons.len() > 0 {
            Some(reasons[0])
        } else {
            before
        },
    decreases reasons.len(),
{
    if reasons.len() > 0 {
        the_first_request_wins(before, reasons.drop_last());
    }
}

/// Per-connection cancellation state. The first request wins until the connection
/// resets the token for the next statement.
#[derive(Debug)]
pub struct QueryCancel {
    reason: Option<CancelReason>,
}

impl View for QueryCancel {
    type V = Option<CancelReason>;

    closed spec fn view(&self) -> Option<CancelReason> {
        self.reason
    }
}

impl Default for QueryCancel {
    fn default() -> (cancel: Self)
        ensures
            cancel@ is None,
    {
        QueryCancel::new()
    }
}

impl QueryCancel {
    pub fn new() -> (cancel: Self)
        ensures
            cancel@ is None,
    {
        QueryCancel { reason: None }
    }

    /// Cancels the statement, unless it has been canceled before.
    pub fn request(&mut self, reason: CancelReason)
        ensures
            final(self)@ == requested(old(self)@, reason),
    {
        if self.reason.is_none() {
            self.reason = Some(reason);
        }
    }

    /// Forgets the request, for the next statement.
    pub fn reset(&mut self)
        ensures
            final(self)@ is None,
    {
        self.reason = None;
    }

    /// Why the statement was canceled, if it was.
    pub fn reason(&self) -> (reason: Option<CancelReason>)
        ensures
            reason == self@,
    {
        self.reason
    }

    /// Fails if the statement has been canceled.
    pub fn check(&self) -> (result: Result<()>)
        ensures
            match result {
                Ok(_) => self@ is None,
                Err(error) => self@ is Some && error@ == error::execute_error(
                    SqlState::QueryCanceled,
                    cancel_message(self@->0),
                ),
            },
    {
        let reason: CancelReason = match self.reason {
            Some(reason) => reason,
            None => return Ok(()),
        };
        let message: &str = match reason {
            CancelReason::UserRequest => "canceling statement due to user request",
            CancelReason::StatementTimeout => "canceling statement due to statement timeout",
        };
        Err(DbError::execute(SqlState::QueryCanceled, message))
    }
}

/// A statement runs on as long as nobody asked to cancel it. The first request decides
/// what it fails with: a request of the user and a timeout are told apart, and both are
/// reported as a canceled query.
pub proof fn canceled_statements_fail(cancel: &QueryCancel, checked: Result<()>)
    requires
        call_ensures(QueryCancel::check, (cancel,), checked),
    ensures
        checked is Ok <==> cancel@ is None,
        checked is Err ==> checked->Err_0@.code == SqlState::QueryCanceled,
        cancel@ == Some(CancelReason::UserRequest) ==> checked->Err_0@.message
            == "canceling statement due to user request"@,
        cancel@ == Some(CancelReason::StatementTimeout) ==> checked->Err_0@.message
            == "canceling statement due to statement timeout"@,
{
}

} // verus!
