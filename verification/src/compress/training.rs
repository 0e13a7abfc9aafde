//! Training a dictionary on a thread of its own while the statement can be canceled:
//! what to do next.

use vstd::prelude::*;

use crate::cancel::{self, CancelReason, QueryCancel};
use crate::compress::dict;
use crate::error::{self, DbError, ErrorView, Result, SqlState};

verus! {

/// What has happened. At most one dictionary is trained at a time: whoever has the permit
/// trains.
#[derive(Debug)]
pub enum TrainingEvent {
    /// A dictionary is wanted, for that many samples.
    Wanted { samples: usize },
    /// Someone else has had the permit for the whole of the last interval.
    Busy,
    /// The permit is had.
    Permitted,
    /// The worker has been started.
    Started,
    /// The worker could not be started, for this reason.
    NotStarted(String),
    /// The worker has not finished within the last interval.
    Working,
    /// The worker has finished.
    Trained(Option<Vec<u8>>),
    /// The worker is gone without having finished.
    Stopped,
}

/// What to do next.
#[derive(Debug)]
pub enum TrainingAction {
    /// Try to get the permit; if it is taken, wait for an interval.
    Claim,
    /// Start a worker that trains on a copy of the samples and gives back the permit.
    Start,
    /// Wait for the worker, for an interval at most.
    Poll,
    /// Answer the statement. A worker that has been started is left to finish.
    Finish(Result<Option<Vec<u8>>>),
}

/// The error of a canceled statement.
pub open spec fn canceled(reason: CancelReason) -> ErrorView {
    error::execute_error(SqlState::QueryCanceled, cancel::cancel_message(reason))
}

/// The action ends the training with this error.
pub open spec fn fails_with(action: TrainingAction, problem: ErrorView) -> bool {
    action matches TrainingAction::Finish(Err(error)) && error@ == problem
}

/// The action that an event leads to. A cancellation counts wherever the statement would
/// otherwise wait, and before anything is done.
pub open spec fn is_next_action(
    event: TrainingEvent,
    request: Option<CancelReason>,
    action: TrainingAction,
) -> bool {
    match event {
        TrainingEvent::Wanted { samples } => match request {
            Some(reason) => fails_with(action, canceled(reason)),
            None => if samples < dict::MIN_TRAINING_SAMPLES {
                action == TrainingAction::Finish(Ok(None))
            } else {
                action == TrainingAction::Claim
            },
        },
        TrainingEvent::Busy => match request {
            Some(reason) => fails_with(action, canceled(reason)),
            None => action == TrainingAction::Claim,
        },
        TrainingEvent::Permitted => action == TrainingAction::Start,
        TrainingEvent::Started | TrainingEvent::Working => match request {
            Some(reason) => fails_with(action, canceled(reason)),
            None => action == TrainingAction::Poll,
        },
        TrainingEvent::NotStarted(why) => fails_with(
            action,
            error::internal_error("failed to start dictionary training: "@ + why@),
        ),
        TrainingEvent::Trained(dictionary) => action == TrainingAction::Finish(Ok(dictionary)),
        TrainingEvent::Stopped => fails_with(
            action,
            error::internal_error("dictionary training worker stopped"@),
        ),
    }
}

/// What to do after an event, given whether the statement has been canceled.
pub fn next_training_action(event: TrainingEvent, cancel: &QueryCancel) -> (action: TrainingAction)
    ensures
        is_next_action(event, cancel@, action),
{
    match event {
        TrainingEvent::Wanted { samples } => match cancel.check() {
            Err(error) => TrainingAction::Finish(Err(error)),
            Ok(_) => {
                if samples < dict::MIN_TRAINING_SAMPLES {
                    TrainingAction::Finish(Ok(None))
                } else {
                    TrainingAction::Claim
                }
            },
        },
        TrainingEvent::Busy => match cancel.check() {
            Err(error) => TrainingAction::Finish(Err(error)),
            Ok(_) => TrainingAction::Claim,
        },
        TrainingEvent::Permitted => TrainingAction::Start,
        TrainingEvent::Started | TrainingEvent::Working => match cancel.check() {
            Err(error) => TrainingAction::Finish(Err(error)),
            Ok(_) => TrainingAction::Poll,
        },
        TrainingEvent::NotStarted(why) => {
            let mut message: String = "failed to start dictionary training: ".to_owned();
            message.append(&why);
            TrainingAction::Finish(Err(DbError::internal(&message)))
        },
        TrainingEvent::Trained(dictionary) => TrainingAction::Finish(Ok(dictionary)),
        TrainingEvent::Stopped => TrainingAction::Finish(
            Err(DbError::internal("dictionary training worker stopped")),
        ),
    }
}

} // verus!
