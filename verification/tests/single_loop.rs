use batch_consumer::single::loop_step;
use batch_consumer::single::LoopAction;
use batch_consumer::single::LoopEvent;
use batch_consumer::single::LoopState;

#[test]
fn a_message_is_processed_then_acknowledged() {
    let (state, action) = loop_step(LoopState::Waiting, LoopEvent::Arrived);
    assert_eq!(state, LoopState::Processing);
    assert_eq!(action, LoopAction::InvokeProcessor);

    let (state, action) = loop_step(state, LoopEvent::ProcessorReturned);
    assert_eq!(state, LoopState::Acknowledging);
    assert_eq!(action, LoopAction::Acknowledge);

    let (state, action) = loop_step(state, LoopEvent::AckSucceeded);
    assert_eq!(state, LoopState::Waiting);
    assert_eq!(action, LoopAction::FetchNext);
}

#[test]
fn a_fetch_error_only_logs_and_resumes() {
    let (state, action) = loop_step(LoopState::Waiting, LoopEvent::FetchFailed);
    assert_eq!(state, LoopState::IdleOnError);
    assert_eq!(action, LoopAction::LogError);

    let (state, action) = loop_step(state, LoopEvent::ErrorLogged);
    assert_eq!(state, LoopState::Waiting);
    assert_eq!(action, LoopAction::FetchNext);
}

#[test]
fn end_of_stream_exits_cleanly() {
    let (state, action) = loop_step(LoopState::Waiting, LoopEvent::StreamClosed);
    assert_eq!(state, LoopState::Stopped);
    assert_eq!(action, LoopAction::ExitLoop);
}

#[test]
fn a_failed_acknowledgment_terminates_the_consumer() {
    let (state, action) = loop_step(LoopState::Acknowledging, LoopEvent::AckFailed);
    assert_eq!(state, LoopState::Fatal);
    assert_eq!(action, LoopAction::Terminate);
}
