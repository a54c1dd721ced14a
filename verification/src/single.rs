//! The single-delivery consumption loop, as an explicit state machine:
//! wait for a message, process it, acknowledge it, and loop; recover from
//! fetch errors, stop on end-of-stream, and treat a failed acknowledgment
//! as fatal.
//!
//! The surrounding application owns the delivery in flight and performs
//! the fetch, the processor invocation, and the acknowledgment call; this
//! machine decides what to do after each of those, so that the order
//! process-then-acknowledge and the fatality of acknowledgment errors are
//! fixed here rather than by convention.

use vstd::prelude::*;

verus! {

/// The loop's states.
#[derive(PartialEq, Eq, Structural, Clone, Copy, Debug)]
pub enum LoopState {
    /// Waiting for the next delivery from the source.
    Waiting,
    /// A delivery has arrived and is with the processor.
    Processing,
    /// The processor has returned; the delivery is being acknowledged.
    Acknowledging,
    /// A fetch failed; the error is logged and the loop resumes waiting.
    IdleOnError,
    /// The source closed cleanly; the loop is over.
    Stopped,
    /// An acknowledgment failed; the consumer must terminate.
    Fatal,
}

/// What the application reports to the machine.
#[derive(PartialEq, Eq, Structural, Clone, Copy, Debug)]
pub enum LoopEvent {
    /// A delivery arrived (reported while `Waiting`).
    Arrived,
    /// The fetch yielded an error instead of a delivery (while `Waiting`).
    FetchFailed,
    /// The source reported end-of-stream (while `Waiting`).
    StreamClosed,
    /// The processor returned (while `Processing`).
    ProcessorReturned,
    /// The acknowledgment call succeeded (while `Acknowledging`).
    AckSucceeded,
    /// The acknowledgment call failed (while `Acknowledging`).
    AckFailed,
    /// The error has been logged (while `IdleOnError`).
    ErrorLogged,
}

/// What the application must do next.
#[derive(PartialEq, Eq, Structural, Clone, Copy, Debug)]
pub enum LoopAction {
    /// Pull the next delivery from the source.
    FetchNext,
    /// Hand the delivery in flight to the processor.
    InvokeProcessor,
    /// Acknowledge the delivery in flight.
    Acknowledge,
    /// Log the fetch error.
    LogError,
    /// Exit the loop cleanly.
    ExitLoop,
    /// Terminate the consumer: session state is no longer trustworthy.
    Terminate,
}

/// Which events a state accepts.
pub open spec fn accepts(state: LoopState, event: LoopEvent) -> bool {
    match state {
        LoopState::Waiting => event == LoopEvent::Arrived || event == LoopEvent::FetchFailed
            || event == LoopEvent::StreamClosed,
        LoopState::Processing => event == LoopEvent::ProcessorReturned,
        LoopState::Acknowledging => event == LoopEvent::AckSucceeded || event
            == LoopEvent::AckFailed,
        LoopState::IdleOnError => event == LoopEvent::ErrorLogged,
        LoopState::Stopped => false,
        LoopState::Fatal => false,
    }
}

/// The transition table: the next state and the action it calls for.
///
/// A delivery is processed before it is acknowledged; a fetch error only
/// logs and resumes; end-of-stream exits cleanly; a failed acknowledgment
/// goes to `Fatal`, which — like `Stopped` — accepts no further event, so
/// nothing is fetched, processed, or acknowledged after it.
pub open spec fn spec_step(state: LoopState, event: LoopEvent) -> (LoopState, LoopAction) {
    match (state, event) {
        (LoopState::Waiting, LoopEvent::Arrived) => (
            LoopState::Processing,
            LoopAction::InvokeProcessor,
        ),
        (LoopState::Waiting, LoopEvent::FetchFailed) => (
            LoopState::IdleOnError,
            LoopAction::LogError,
        ),
        (LoopState::Waiting, LoopEvent::StreamClosed) => (LoopState::Stopped, LoopAction::ExitLoop),
        (LoopState::Processing, LoopEvent::ProcessorReturned) => (
            LoopState::Acknowledging,
            LoopAction::Acknowledge,
        ),
        (LoopState::Acknowledging, LoopEvent::AckSucceeded) => (
            LoopState::Waiting,
            LoopAction::FetchNext,
        ),
        (LoopState::Acknowledging, LoopEvent::AckFailed) => (
            LoopState::Fatal,
            LoopAction::Terminate,
        ),
        (LoopState::IdleOnError, LoopEvent::ErrorLogged) => (
            LoopState::Waiting,
            LoopAction::FetchNext,
        ),
        _ => (LoopState::Stopped, LoopAction::ExitLoop),
    }
}

/// Performs one transition of the loop.
pub fn loop_step(state: LoopState, event: LoopEvent) -> (r: (LoopState, LoopAction))
    requires
        accepts(state, event),
    ensures
        r == spec_step(state, event),
{
    match (state, event) {
        (LoopState::Waiting, LoopEvent::Arrived) => (
            LoopState::Processing,
            LoopAction::InvokeProcessor,
        ),
        (LoopState::Waiting, LoopEvent::FetchFailed) => (
            LoopState::IdleOnError,
            LoopAction::LogError,
        ),
        (LoopState::Waiting, LoopEvent::StreamClosed) => (LoopState::Stopped, LoopAction::ExitLoop),
        (LoopState::Processing, LoopEvent::ProcessorReturned) => (
            LoopState::Acknowledging,
            LoopAction::Acknowledge,
        ),
        (LoopState::Acknowledging, LoopEvent::AckSucceeded) => (
            LoopState::Waiting,
            LoopAction::FetchNext,
        ),
        (LoopState::Acknowledging, LoopEvent::AckFailed) => (
            LoopState::Fatal,
            LoopAction::Terminate,
        ),
        (LoopState::IdleOnError, LoopEvent::ErrorLogged) => (
            LoopState::Waiting,
            LoopAction::FetchNext,
        ),
        _ => (LoopState::Stopped, LoopAction::ExitLoop),
    }
}

/// Fatality is terminal, and only a failed acknowledgment reaches it: the
/// `Fatal` and `Stopped` states accept no further event, so nothing is
/// fetched, processed, or acknowledged past them, and no accepted
/// transition from any other state lands in `Fatal` except a failed
/// acknowledgment.
pub proof fn lemma_fatal_is_terminal(state: LoopState, event: LoopEvent)
    ensures
        state == LoopState::Fatal ==> !accepts(state, event),
        state == LoopState::Stopped ==> !accepts(state, event),
        accepts(state, event) && spec_step(state, event).0 == LoopState::Fatal ==> state
            == LoopState::Acknowledging && event == LoopEvent::AckFailed,
{
}

/// Every delivery is processed before it is acknowledged, and acknowledged
/// before the next is fetched: the only accepted transition out of
/// `Processing` is into `Acknowledging` with the `Acknowledge` action, and
/// the only accepted way back to `Waiting` (where the next fetch happens)
/// from there is a successful acknowledgment.
pub proof fn lemma_ack_between_process_and_next_fetch(event: LoopEvent)
    ensures
        accepts(LoopState::Processing, event) ==> spec_step(LoopState::Processing, event) == (
            LoopState::Acknowledging,
            LoopAction::Acknowledge,
        ),
        accepts(LoopState::Acknowledging, event) && spec_step(LoopState::Acknowledging, event).0
            == LoopState::Waiting ==> event == LoopEvent::AckSucceeded,
{
}

} // verus!
